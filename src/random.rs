use vstd::prelude::*;
use rand::Rng;

verus! {

/// Values of the random stream stay below this modulus (2^31 - 1), the one
/// the kernel's generator works with.
pub const RAND_PM_M: u32 = 2147483647;

/// Relies on rand's `thread_rng().gen::<u32>()`: a uniformly drawn `u32`.
/// Nothing is known of the value.
#[verifier::external_body]
fn random_u32() -> u32 {
    rand::thread_rng().gen::<u32>()
}

/// Relies on rand's `Rng::gen_range(low, high)`: a value in `[low, high)`.
/// It panics when `low >= high`, which `requires` rules out.
#[verifier::external_body]
fn random_below(bound: u32) -> (r: u32)
    requires
        bound > 0,
    ensures
        r < bound,
{
    rand::thread_rng().gen_range(0, bound)
}

/// A stream value from a raw draw: the draw reduced modulo `RAND_PM_M`.
pub fn stream_value(draw: u32) -> (r: u32)
    ensures
        r == draw % RAND_PM_M,
        r < RAND_PM_M,
{
    draw % RAND_PM_M
}

/// A fresh random stream: `len` values, each a fresh draw reduced by
/// `stream_value`, so each below `RAND_PM_M`.
pub fn random_stream(len: usize) -> (r: Vec<u32>)
    ensures
        r@.len() == len,
        forall|i: int| 0 <= i < len ==> #[trigger] r@[i] < RAND_PM_M,
{
    let mut r: Vec<u32> = Vec::with_capacity(len);
    let mut i: usize = 0;
    while i < len
        invariant
            i <= len,
            r@.len() == i,
            forall|j: int| 0 <= j < i ==> #[trigger] r@[j] < RAND_PM_M,
        decreases len - i,
    {
        let draw = random_u32();
        r.push(stream_value(draw));
        i = i + 1;
    }
    r
}

/// A uniformly drawn pixel of a width-by-height canvas.
pub fn random_position(width: u32, height: u32) -> (p: (u32, u32))
    requires
        width > 0,
        height > 0,
    ensures
        p.0 < width,
        p.1 < height,
{
    (random_below(width), random_below(height))
}

} // verus!
