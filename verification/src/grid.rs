//! Square images held as one buffer, row by row.

use vstd::prelude::*;

verus! {

/// `root` is the integer square root of `n`: the greatest number whose square
/// is at most `n`.
pub open spec fn is_square_root(n: int, root: int) -> bool {
    0 <= root && root * root <= n < (root + 1) * (root + 1)
}

/// There is only one integer square root.
pub proof fn lemma_square_root_unique(n: int, a: int, b: int)
    requires
        is_square_root(n, a),
        is_square_root(n, b),
    ensures
        a == b,
{
    if a < b {
        assert((a + 1) * (a + 1) <= b * b) by (nonlinear_arith)
            requires
                0 <= a + 1 <= b,
        ;
    }
    if b < a {
        assert((b + 1) * (b + 1) <= a * a) by (nonlinear_arith)
            requires
                0 <= b + 1 <= a,
        ;
    }
}

/// The integer square root of `n`.
pub open spec fn sqrt_of(n: int) -> int {
    choose|root: int| is_square_root(n, root)
}

/// The integer square root of `n`.
pub fn integer_sqrt(n: u64) -> (root: u64)
    ensures
        is_square_root(n as int, root as int),
        root == sqrt_of(n as int),
        root <= 0xFFFF_FFFF,
{
    let mut low: u64 = 0;
    let mut high: u64 = 4294967296;
    assert(n < 4294967296 * 4294967296);
    while high - low > 1
        invariant
            low < high <= 4294967296,
            low * low <= n,
            n < high * high,
        decreases high - low,
    {
        let mid = low + (high - low) / 2;
        assert(mid * mid <= 4294967296 * 4294967296) by (nonlinear_arith)
            requires
                0 <= mid <= 4294967296,
        ;
        let square: u128 = (mid as u128) * (mid as u128);
        if square <= n as u128 {
            low = mid;
        } else {
            high = mid;
        }
    }
    proof {
        lemma_square_root_unique(n as int, low as int, sqrt_of(n as int));
    }
    low
}

/// A square image of side `len`, held in `image` row by row.
#[derive(Clone, Debug)]
pub struct GreyscaleImage<T> {
    pub image: Vec<T>,
    pub len: usize,
}

impl<T> GreyscaleImage<T> {
    /// The side is the integer square root of the number of pixels.
    pub open spec fn wf(&self) -> bool {
        is_square_root(self.image@.len() as int, self.len as int)
    }

    /// The buffer is a full square.
    pub open spec fn is_square(&self) -> bool {
        self.image@.len() == self.len * self.len
    }

    /// The image of the given pixels. Its side is the integer square root of
    /// their number, so pixels beyond the last full square are out of reach.
    pub fn new(image: Vec<T>) -> (grey: Self)
        ensures
            grey.image@ == image@,
            grey.wf(),
    {
        let len = integer_sqrt(image.len() as u64) as usize;
        Self { image, len }
    }

    /// The side of the image.
    pub fn len(&self) -> (len: usize)
        ensures
            len == self.len,
    {
        self.len
    }

    /// The pixel in column `x` and row `y`.
    pub fn get(&self, x: usize, y: usize) -> (pixel: &T)
        requires
            x + y * self.len < self.image@.len(),
        ensures
            *pixel == self.image@[x + y * self.len],
    {
        assert(0 <= y * self.len) by (nonlinear_arith)
            requires
                0 <= y,
                0 <= self.len,
        ;
        let pixels = self.image.len();
        &self.image[x + y * self.len]
    }

    /// Replaces the pixel in column `x` and row `y`.
    pub fn set(&mut self, x: usize, y: usize, pixel: T)
        requires
            x + y * old(self).len < old(self).image@.len(),
        ensures
            final(self).len == old(self).len,
            final(self).image@ == old(self).image@.update(x + y * old(self).len, pixel),
    {
        assert(0 <= y * self.len) by (nonlinear_arith)
            requires
                0 <= y,
                0 <= self.len,
        ;
        let pixels = self.image.len();
        let at = x + y * self.len;
        self.image[at] = pixel;
    }
}

/// `c` moved by `o` and held between 0 and `len`.
pub open spec fn clamped_index(c: int, o: int, len: int) -> int {
    if c + o < 0 {
        0
    } else if c + o > len {
        len
    } else {
        c + o
    }
}

/// The index `c` moved by the offset `o`, held between 0 and `len`.
pub fn clamp_idx(c: usize, o: i32, len: usize) -> (index: usize)
    requires
        c <= i32::MAX,
        len <= i32::MAX,
        c + o <= i32::MAX,
    ensures
        index == clamped_index(c as int, o as int, len as int),
{
    let moved: i32 = c as i32 + o;
    if moved < 0 {
        0
    } else if moved > len as i32 {
        len
    } else {
        moved as usize
    }
}

} // verus!
