use vstd::prelude::*;

use crate::processing_elements::tracker::{
    lemma_log2_floor_unique, lemma_pow2_pos, log2_floor, pow2, PoolingStrategy,
};

verus! {

// ---------------------------------------------------------------------------
// Host-side reference arithmetic for the reduction.
//
// The GPU reduces the coordinate mask with fixed shader kernels; the
// functions below carry the same arithmetic over plain integers, scaled so
// that every value is exact: a pixel's normalised coordinate `(px + 1/2) /
// sub_width` is represented by the numerator `2*px + 1` over the implicit
// denominator `2*sub_width`.
// ---------------------------------------------------------------------------

/// Sum of `f(a) + ... + f(b-1)`.
pub open spec fn fsum(f: spec_fn(int) -> int, a: int, b: int) -> int
    decreases b - a,
{
    if a >= b {
        0
    } else {
        fsum(f, a, b - 1) + f(b - 1)
    }
}

pub proof fn lemma_fsum_nonneg(f: spec_fn(int) -> int, a: int, b: int)
    requires
        forall|i: int| a <= i < b ==> #[trigger] f(i) >= 0,
    ensures
        fsum(f, a, b) >= 0,
    decreases b - a,
{
    if a < b {
        lemma_fsum_nonneg(f, a, b - 1);
    }
}

pub proof fn lemma_fsum_split(f: spec_fn(int) -> int, a: int, b: int, c: int)
    requires
        a <= b <= c,
    ensures
        fsum(f, a, c) == fsum(f, a, b) + fsum(f, b, c),
    decreases c - b,
{
    if b < c {
        lemma_fsum_split(f, a, b, c - 1);
    }
}

pub proof fn lemma_fsum_const(f: spec_fn(int) -> int, a: int, b: int, c: int)
    requires
        a <= b,
        forall|i: int| a <= i < b ==> #[trigger] f(i) == c,
    ensures
        fsum(f, a, b) == (b - a) * c,
    decreases b - a,
{
    if a < b {
        lemma_fsum_const(f, a, b - 1, c);
        assert(fsum(f, a, b) == fsum(f, a, b - 1) + f(b - 1));
        assert(f(b - 1) == c);
        assert((b - 1 - a) * c + c == (b - a) * c) by (nonlinear_arith);
    } else {
        assert((b - a) * c == 0) by (nonlinear_arith)
            requires b == a;
    }
}

pub proof fn lemma_fsum_congruence(f: spec_fn(int) -> int, g: spec_fn(int) -> int, a: int, b: int)
    requires
        forall|i: int| a <= i < b ==> #[trigger] f(i) == g(i),
    ensures
        fsum(f, a, b) == fsum(g, a, b),
    decreases b - a,
{
    if a < b {
        lemma_fsum_congruence(f, g, a, b - 1);
    }
}

pub proof fn lemma_fsum_add(
    f: spec_fn(int) -> int,
    g: spec_fn(int) -> int,
    h: spec_fn(int) -> int,
    a: int,
    b: int,
)
    requires
        forall|i: int| a <= i < b ==> #[trigger] h(i) == f(i) + g(i),
    ensures
        fsum(h, a, b) == fsum(f, a, b) + fsum(g, a, b),
    decreases b - a,
{
    if a < b {
        lemma_fsum_add(f, g, h, a, b - 1);
    }
}

/// Shifting the window: the sum over `[a, a+s)` is the sum of the shifted
/// function over `[0, s)`.
pub proof fn lemma_fsum_shift(f: spec_fn(int) -> int, a: int, s: int)
    requires
        s >= 0,
    ensures
        fsum(f, a, a + s) == fsum(|t: int| f(a + t), 0, s),
    decreases s,
{
    if s > 0 {
        lemma_fsum_shift(f, a, s - 1);
        let g = |t: int| f(a + t);
        assert(fsum(g, 0, s) == fsum(g, 0, s - 1) + g(s - 1));
        assert(g(s - 1) == f(a + s - 1));
    }
}

/// Summing block by block: when each `fo(i)` is the sum of the `s` values
/// `fi(s*i) .. fi(s*i + s - 1)`, the `m` block sums add up to the full sum
/// over `s*m` values. This is the associativity fact behind the hierarchical
/// reduction.
pub proof fn lemma_fsum_blocks(fo: spec_fn(int) -> int, fi: spec_fn(int) -> int, m: int, s: int)
    requires
        m >= 0,
        s >= 0,
        forall|i: int| 0 <= i < m ==> #[trigger] fo(i) == fsum(|t: int| fi(s * i + t), 0, s),
    ensures
        fsum(fo, 0, m) == fsum(fi, 0, s * m),
    decreases m,
{
    if m > 0 {
        lemma_fsum_blocks(fo, fi, m - 1, s);
        lemma_fsum_shift(fi, s * (m - 1), s);
        assert(fsum(fo, 0, m) == fsum(fo, 0, m - 1) + fo(m - 1));
        assert(fo(m - 1) == fsum(|t: int| fi(s * (m - 1) + t), 0, s));
        assert(fsum(fi, s * (m - 1), s * (m - 1) + s) == fsum(
            |t: int| fi(s * (m - 1) + t),
            0,
            s,
        ));
        assert(s * m == s * (m - 1) + s) by (nonlinear_arith);
        assert(0 <= s * (m - 1) && s * (m - 1) <= s * m) by (nonlinear_arith)
            requires s >= 0 && m >= 1;
        lemma_fsum_split(fi, 0, s * (m - 1), s * m);
    } else {
        assert(s * m == 0) by (nonlinear_arith)
            requires m == 0;
    }
}

/// Sum of consecutive odd numerators: `(2b+1) + (2(b+1)+1) + ... ` over `k`
/// terms is `k * (2b + k)`.
pub proof fn lemma_odd_sum(b: int, k: int)
    requires
        k >= 0,
    ensures
        fsum(|x: int| 2 * x + 1, b, b + k) == k * (2 * b + k),
    decreases k,
{
    if k > 0 {
        lemma_odd_sum(b, k - 1);
        let f = |x: int| 2 * x + 1;
        assert(fsum(f, b, b + k - 1) == (k - 1) * (2 * b + (k - 1)));
        assert(fsum(f, b, b + k) == fsum(f, b, b + k - 1) + f(b + k - 1));
        assert(k * (2 * b + k) == (k - 1) * (2 * b + k - 1) + 2 * (b + k - 1) + 1)
            by (nonlinear_arith);
        assert(fsum(f, b, b + k) == k * (2 * b + k));
    } else {
        assert(k * (2 * b + k) == 0) by (nonlinear_arith)
            requires k == 0;
    }
}

/// Total of one plane of cell values.
pub open spec fn plane_total(s: Seq<u64>) -> int {
    fsum(|i: int| s[i] as int, 0, s.len() as int)
}

/// The weight the coordinate mask reads at canvas cell `(px, py)`: the mask
/// value where the original image covers the canvas, zero in the padding.
pub open spec fn mask_weight(weights: Seq<u8>, width: int, height: int, px: int, py: int) -> int {
    if 0 <= px < width && 0 <= py < height {
        weights[py * width + px] as int
    } else {
        0
    }
}

/// The three per-cell values of the coordinate mask at flat canvas index
/// `i`, as (x-numerator, y-numerator, weight).
pub open spec fn cm_cell_x(weights: Seq<u8>, width: int, height: int, size: int, i: int) -> int {
    (2 * (i % size) + 1) * mask_weight(weights, width, height, i % size, i / size)
}

pub open spec fn cm_cell_y(weights: Seq<u8>, width: int, height: int, size: int, i: int) -> int {
    (2 * (i / size) + 1) * mask_weight(weights, width, height, i % size, i / size)
}

pub open spec fn cm_cell_w(weights: Seq<u8>, width: int, height: int, size: int, i: int) -> int {
    mask_weight(weights, width, height, i % size, i / size)
}

/// The exact sums the GPU reduction converges to: x-numerators,
/// y-numerators and weights of every canvas cell.
pub open spec fn mask_total_x(weights: Seq<u8>, width: int, height: int, size: int) -> int {
    fsum(|i: int| cm_cell_x(weights, width, height, size, i), 0, size * size)
}

pub open spec fn mask_total_y(weights: Seq<u8>, width: int, height: int, size: int) -> int {
    fsum(|i: int| cm_cell_y(weights, width, height, size, i), 0, size * size)
}

pub open spec fn mask_total_w(weights: Seq<u8>, width: int, height: int, size: int) -> int {
    fsum(|i: int| cm_cell_w(weights, width, height, size, i), 0, size * size)
}

/// `n` is a power of two.
pub open spec fn is_pow2(n: nat) -> bool {
    n == pow2(log2_floor(n))
}

/// The host-side coordinate mask: for every cell of the square canvas the
/// scaled x and y numerators and the weight, in row-major planes. The exact
/// integer counterpart of the GPU's 4-component coordinate-mask image.
pub struct CoordinateMask {
    pub size: u32,
    pub sub_width: u32,
    pub sub_height: u32,
    pub xs: Vec<u64>,
    pub ys: Vec<u64>,
    pub ws: Vec<u64>,
}

impl CoordinateMask {
    /// Well-formed: plane lengths match the canvas, the sub-region and the
    /// canvas respect the device limits, and the plane totals respect the
    /// bounds that keep all reduction arithmetic inside `u64`.
    pub open spec fn wf(self) -> bool {
        &&& self.xs@.len() == self.size * self.size
        &&& self.ys@.len() == self.size * self.size
        &&& self.ws@.len() == self.size * self.size
        &&& 1 <= self.size <= 16384
        &&& 1 <= self.sub_width <= 16384
        &&& 1 <= self.sub_height <= 16384
        &&& forall|i: int|
            0 <= i < self.size * self.size ==> (#[trigger] self.xs@[i]) * self.size * self.size
                <= 0x8_0000_0000_0000
        &&& forall|i: int|
            0 <= i < self.size * self.size ==> (#[trigger] self.ys@[i]) * self.size * self.size
                <= 0x8_0000_0000_0000
        &&& forall|i: int|
            0 <= i < self.size * self.size ==> (#[trigger] self.ws@[i]) * self.size * self.size
                <= 0x8_0000_0000_0000
        &&& plane_total(self.xs@) <= 0x8_0000_0000_0000
        &&& plane_total(self.ys@) <= 0x8_0000_0000_0000
        &&& plane_total(self.ws@) <= 0x10_0000_0000
    }

    /// The mask totals this coordinate mask reduces to.
    pub open spec fn totals(self) -> (int, int, int) {
        (plane_total(self.xs@), plane_total(self.ys@), plane_total(self.ws@))
    }
}


pub proof fn lemma_fsum_two(g: spec_fn(int) -> int)
    ensures
        fsum(g, 0, 2) == g(0) + g(1),
{
    assert(fsum(g, 0, 2) == fsum(g, 0, 1) + g(1));
    assert(fsum(g, 0, 1) == fsum(g, 0, 0) + g(0));
}

/// A sum of values bounded by `c` is bounded by `count * c`.
pub proof fn lemma_fsum_le_const(f: spec_fn(int) -> int, a: int, b: int, c: int)
    requires
        a <= b,
        forall|i: int| a <= i < b ==> #[trigger] f(i) <= c,
    ensures
        fsum(f, a, b) <= (b - a) * c,
    decreases b - a,
{
    if a < b {
        lemma_fsum_le_const(f, a, b - 1, c);
        assert((b - 1 - a) * c + c == (b - a) * c) by (nonlinear_arith);
    } else {
        assert((b - a) * c == 0) by (nonlinear_arith)
            requires b == a;
    }
}

pub proof fn lemma_fsum_scale(f: spec_fn(int) -> int, g: spec_fn(int) -> int, a: int, b: int, c: int)
    requires
        forall|i: int| a <= i < b ==> #[trigger] g(i) == c * f(i),
    ensures
        fsum(g, a, b) == c * fsum(f, a, b),
    decreases b - a,
{
    if a < b {
        lemma_fsum_scale(f, g, a, b - 1, c);
        assert(c * fsum(f, a, b - 1) + c * f(b - 1) == c * (fsum(f, a, b - 1) + f(b - 1)))
            by (nonlinear_arith);
    } else {
        assert(c * 0 == 0) by (nonlinear_arith);
    }
}

/// Pooling preserves the plane total: when each of the `m * m` output cells
/// is the sum of its 2x2 input block, the output cells sum to the same
/// value as the `2m * 2m` input cells. One exact halving step of the
/// hierarchical reduction therefore loses nothing.
pub proof fn lemma_pool2_preserves_total(
    fo: spec_fn(int) -> int,
    fi: spec_fn(int) -> int,
    m: int,
)
    requires
        m >= 0,
        forall|oy: int, ox: int|
            0 <= oy < m && 0 <= ox < m ==> #[trigger] fo(m * oy + ox) == fi(
                (2 * m) * (2 * oy) + 2 * ox,
            ) + fi((2 * m) * (2 * oy) + 2 * ox + 1) + fi((2 * m) * (2 * oy + 1) + 2 * ox) + fi(
                (2 * m) * (2 * oy + 1) + 2 * ox + 1,
            ),
    ensures
        fsum(fo, 0, m * m) == fsum(fi, 0, (2 * m) * (2 * m)),
{
    let n = 2 * m;
    let row_o = |y: int| fsum(|t: int| fo(m * y + t), 0, m);
    let row_i = |y: int| fsum(|t: int| fi(n * y + t), 0, n);
    assert forall|i: int| 0 <= i < m implies #[trigger] row_o(i) == fsum(
        |t: int| fo(m * i + t),
        0,
        m,
    ) by {}
    lemma_fsum_blocks(row_o, fo, m, m);
    assert forall|i: int| 0 <= i < n implies #[trigger] row_i(i) == fsum(
        |t: int| fi(n * i + t),
        0,
        n,
    ) by {}
    lemma_fsum_blocks(row_i, fi, n, n);
    assert(n * n == (2 * m) * (2 * m));
    assert forall|oy: int| 0 <= oy < m implies #[trigger] row_o(oy) == row_i(2 * oy) + row_i(
        2 * oy + 1,
    ) by {
        let top = |ox: int| fi(n * (2 * oy) + 2 * ox) + fi(n * (2 * oy) + 2 * ox + 1);
        let bot = |ox: int| fi(n * (2 * oy + 1) + 2 * ox) + fi(n * (2 * oy + 1) + 2 * ox + 1);
        assert forall|i: int| 0 <= i < m implies #[trigger] top(i) == fsum(
            |t: int| fi(n * (2 * oy) + (2 * i + t)),
            0,
            2,
        ) by {
            lemma_fsum_two(|t: int| fi(n * (2 * oy) + (2 * i + t)));
        }
        assert forall|i: int| 0 <= i < m implies #[trigger] top(i) == fsum(
            |t: int| (|u: int| fi(n * (2 * oy) + u))(2 * i + t),
            0,
            2,
        ) by {
            lemma_fsum_congruence(
                |t: int| fi(n * (2 * oy) + (2 * i + t)),
                |t: int| (|u: int| fi(n * (2 * oy) + u))(2 * i + t),
                0,
                2,
            );
        }
        lemma_fsum_blocks(top, |u: int| fi(n * (2 * oy) + u), m, 2);
        lemma_fsum_shift(fi, n * (2 * oy), n);
        assert forall|i: int| 0 <= i < m implies #[trigger] bot(i) == fsum(
            |t: int| (|u: int| fi(n * (2 * oy + 1) + u))(2 * i + t),
            0,
            2,
        ) by {
            lemma_fsum_two(|t: int| (|u: int| fi(n * (2 * oy + 1) + u))(2 * i + t));
        }
        lemma_fsum_blocks(bot, |u: int| fi(n * (2 * oy + 1) + u), m, 2);
        lemma_fsum_shift(fi, n * (2 * oy + 1), n);
        lemma_fsum_add(top, bot, |t: int| fo(m * oy + t), 0, m);
        assert(fsum(|u: int| fi(n * (2 * oy) + u), 0, n) == row_i(2 * oy)) by {
            lemma_fsum_congruence(
                |u: int| fi(n * (2 * oy) + u),
                |t: int| fi(n * (2 * oy) + t),
                0,
                n,
            );
        }
        assert(fsum(|u: int| fi(n * (2 * oy + 1) + u), 0, n) == row_i(2 * oy + 1)) by {
            lemma_fsum_congruence(
                |u: int| fi(n * (2 * oy + 1) + u),
                |t: int| fi(n * (2 * oy + 1) + t),
                0,
                n,
            );
        }
    }
    let pair_r = |oy: int| row_i(2 * oy) + row_i(2 * oy + 1);
    lemma_fsum_congruence(row_o, pair_r, 0, m);
    assert forall|i: int| 0 <= i < m implies #[trigger] pair_r(i) == fsum(
        |t: int| row_i(2 * i + t),
        0,
        2,
    ) by {
        lemma_fsum_two(|t: int| row_i(2 * i + t));
    }
    lemma_fsum_blocks(pair_r, row_i, m, 2);
}

/// A power of two above one halves exactly into the next power of two.
pub proof fn lemma_pow2_half(n: nat)
    requires
        is_pow2(n),
        n > 1,
    ensures
        n % 2 == 0,
        is_pow2(n / 2),
        n / 2 >= 1,
{
    let l = log2_floor(n);
    assert(l >= 1);
    assert(pow2(l) == 2 * pow2((l - 1) as nat));
    lemma_pow2_pos((l - 1) as nat);
    assert(n / 2 == pow2((l - 1) as nat));
    if l - 1 == 0 {
        assert(log2_floor(n / 2) == 0);
    } else {
        lemma_pow2_pos((l - 2) as nat);
        assert(pow2((l - 1) as nat) == 2 * pow2((l - 2) as nat));
        lemma_log2_floor_unique(n / 2, (l - 1) as nat);
    }
}

fn copy_plane(v: &Vec<u64>) -> (r: Vec<u64>)
    ensures
        r@ == v@,
{
    let mut r: Vec<u64> = Vec::new();
    let mut i: usize = 0;
    while i < v.len()
        invariant
            i <= v@.len(),
            r@ =~= v@.subrange(0, i as int),
        decreases v@.len() - i,
    {
        r.push(v[i]);
        i = i + 1;
    }
    proof {
        assert(r@ =~= v@);
    }
    r
}

/// Single-pass summation of one plane: the reference the hierarchical
/// reduction is held against.
fn plane_sum(v: &Vec<u64>) -> (r: u64)
    requires
        plane_total(v@) <= 0x8_0000_0000_0000,
    ensures
        r == plane_total(v@),
{
    let ghost f = |i: int| v@[i] as int;
    let mut acc: u64 = 0;
    let mut i: usize = 0;
    while i < v.len()
        invariant
            i <= v@.len(),
            acc == fsum(f, 0, i as int),
            f == (|i: int| v@[i] as int),
            plane_total(v@) <= 0x8_0000_0000_0000,
        decreases v@.len() - i,
    {
        proof {
            assert(forall|j: int| 0 <= j < v@.len() ==> #[trigger] f(j) >= 0);
            lemma_fsum_split(f, 0, i + 1, v@.len() as int);
            lemma_fsum_nonneg(f, i + 1, v@.len() as int);
            assert(fsum(f, 0, i + 1) == fsum(f, 0, i as int) + f(i as int));
            assert(fsum(f, 0, i + 1) <= plane_total(v@));
        }
        acc = acc + v[i];
        i = i + 1;
    }
    acc
}

/// One exact 2x mean-pooling pass over a square plane: each output cell is
/// the sum of its 2x2 input block. The output plane has the same total as
/// the input plane.
fn pool2_plane(src: &Vec<u64>, n: u32) -> (r: Vec<u64>)
    requires
        n >= 2,
        n <= 16384,
        n % 2 == 0,
        src@.len() == n * n,
        forall|i: int|
            0 <= i < src@.len() ==> (#[trigger] src@[i]) * n * n <= 0x8_0000_0000_0000,
    ensures
        r@.len() == (n / 2) * (n / 2),
        plane_total(r@) == plane_total(src@),
        forall|i: int|
            0 <= i < r@.len() ==> (#[trigger] r@[i]) * (n / 2) * (n / 2) <= 0x8_0000_0000_0000,
        forall|oy: int, ox: int|
            0 <= oy < n / 2 && 0 <= ox < n / 2 ==> #[trigger] r@[(n / 2) * oy + ox] == src@[n * (2
                * oy) + 2 * ox] + src@[n * (2 * oy) + 2 * ox + 1] + src@[n * (2 * oy + 1) + 2 * ox]
                + src@[n * (2 * oy + 1) + 2 * ox + 1],
{
    let m = n / 2;
    let mut r: Vec<u64> = Vec::new();
    let mut oy: u32 = 0;
    proof {
        assert forall|i: int| 0 <= i < src@.len() implies (#[trigger] src@[i])
            <= 0x8_0000_0000_0000 by {
            assert(src@[i] * 1 <= src@[i] * n * n) by (nonlinear_arith)
                requires n >= 2 && src@[i] >= 0;
        }
    }
    while oy < m
        invariant
            oy <= m,
            m == n / 2,
            n >= 2,
            n <= 16384,
            n % 2 == 0,
            src@.len() == n * n,
            r@.len() == m * oy,
            forall|i: int|
                0 <= i < src@.len() ==> (#[trigger] src@[i]) * n * n <= 0x8_0000_0000_0000,
            forall|i: int| 0 <= i < src@.len() ==> (#[trigger] src@[i]) <= 0x8_0000_0000_0000,
            forall|y: int, x: int|
                0 <= y < oy && 0 <= x < m ==> #[trigger] r@[m * y + x] == src@[n * (2 * y) + 2 * x]
                    + src@[n * (2 * y) + 2 * x + 1] + src@[n * (2 * y + 1) + 2 * x] + src@[n * (2
                    * y + 1) + 2 * x + 1],
            forall|i: int| 0 <= i < r@.len() ==> (#[trigger] r@[i]) * m * m <= 0x8_0000_0000_0000,
        decreases m - oy,
    {
        let mut ox: u32 = 0;
        while ox < m
            invariant
                ox <= m,
                oy < m,
                m == n / 2,
                n >= 2,
                n <= 16384,
                n % 2 == 0,
                src@.len() == n * n,
                r@.len() == m * oy + ox,
                forall|i: int|
                    0 <= i < src@.len() ==> (#[trigger] src@[i]) * n * n <= 0x8_0000_0000_0000,
                forall|i: int| 0 <= i < src@.len() ==> (#[trigger] src@[i]) <= 0x8_0000_0000_0000,
                forall|y: int, x: int|
                    0 <= y < oy && 0 <= x < m ==> #[trigger] r@[m * y + x] == src@[n * (2 * y) + 2
                        * x] + src@[n * (2 * y) + 2 * x + 1] + src@[n * (2 * y + 1) + 2 * x]
                        + src@[n * (2 * y + 1) + 2 * x + 1],
                forall|x: int|
                    0 <= x < ox ==> #[trigger] r@[m * oy + x] == src@[n * (2 * oy) + 2 * x]
                        + src@[n * (2 * oy) + 2 * x + 1] + src@[n * (2 * oy + 1) + 2 * x] + src@[n
                        * (2 * oy + 1) + 2 * x + 1],
                forall|i: int|
                    0 <= i < r@.len() ==> (#[trigger] r@[i]) * m * m <= 0x8_0000_0000_0000,
            decreases m - ox,
        {
            proof {
                assert(n * (2 * oy) + 2 * ox + 1 < n * n && n * (2 * oy + 1) + 2 * ox + 1 < n * n
                    && n * (2 * oy) + 2 * ox >= 0 && n * (2 * oy + 1) + 2 * ox >= 0 && n * (2
                    * oy) <= 0x1000_0000 && n * (2 * oy + 1) <= 0x1000_0000 && n * n
                    <= 0x1000_0000) by (nonlinear_arith)
                    requires 0 <= oy < n / 2 && 0 <= ox < n / 2 && 2 <= n <= 16384 && n % 2 == 0;
                assert(m * oy + ox < m * m) by (nonlinear_arith)
                    requires 0 <= oy < m && 0 <= ox < m;
            }
            let a = src[(n * (2 * oy) + 2 * ox) as usize];
            let b = src[(n * (2 * oy) + 2 * ox + 1) as usize];
            let c = src[(n * (2 * oy + 1) + 2 * ox) as usize];
            let d = src[(n * (2 * oy + 1) + 2 * ox + 1) as usize];
            proof {
                assert((a + b + c + d) * m * m <= 0x8_0000_0000_0000) by (nonlinear_arith)
                    requires n == 2 * m && a * n * n <= 0x8_0000_0000_0000 && b * n * n
                        <= 0x8_0000_0000_0000 && c * n * n <= 0x8_0000_0000_0000 && d * n * n
                        <= 0x8_0000_0000_0000 && a >= 0 && b >= 0 && c >= 0 && d >= 0 && m >= 1;
            }
            r.push(a + b + c + d);
            proof {
                assert forall|y: int, x: int| 0 <= y < oy && 0 <= x < m implies #[trigger] r@[m * y
                    + x] == src@[n * (2 * y) + 2 * x] + src@[n * (2 * y) + 2 * x + 1] + src@[n * (2
                    * y + 1) + 2 * x] + src@[n * (2 * y + 1) + 2 * x + 1] by {
                    assert(m * y + x < m * oy) by (nonlinear_arith)
                        requires 0 <= y < oy && 0 <= x < m;
                }
            }
            ox = ox + 1;
        }
        proof {
            assert(m * (oy + 1) == m * oy + m) by (nonlinear_arith);
        }
        oy = oy + 1;
    }
    proof {
        assert(r@.len() == m * m);
        let fo = |i: int| r@[i] as int;
        let fi = |i: int| src@[i] as int;
        assert forall|y: int, x: int| 0 <= y < m && 0 <= x < m implies #[trigger] fo(m * y + x)
            == fi((2 * m) * (2 * y) + 2 * x) + fi((2 * m) * (2 * y) + 2 * x + 1) + fi(
            (2 * m) * (2 * y + 1) + 2 * x,
        ) + fi((2 * m) * (2 * y + 1) + 2 * x + 1) by {
            assert(0 <= m * y + x < m * m) by (nonlinear_arith)
                requires 0 <= y < m && 0 <= x < m && m >= 1;
            assert(n == 2 * m);
            assert(r@[m * y + x] == src@[n * (2 * y) + 2 * x] + src@[n * (2 * y) + 2 * x + 1]
                + src@[n * (2 * y + 1) + 2 * x] + src@[n * (2 * y + 1) + 2 * x + 1]);
        }
        lemma_pool2_preserves_total(fo, fi, m as int);
        assert(plane_total(r@) == fsum(fo, 0, m * m));
        assert((2 * m) * (2 * m) == n * n);
        assert(plane_total(src@) == fsum(fi, 0, n * n));
    }
    r
}

/// One exact 4x mean-pooling pass: each output cell is the sum of its 4x4
/// input block, computed as two exact halvings, which produce the same sums.
fn pool4_plane(src: &Vec<u64>, n: u32) -> (r: Vec<u64>)
    requires
        n >= 4,
        n <= 16384,
        n % 4 == 0,
        src@.len() == n * n,
        forall|i: int|
            0 <= i < src@.len() ==> (#[trigger] src@[i]) * n * n <= 0x8_0000_0000_0000,
    ensures
        r@.len() == (n / 4) * (n / 4),
        plane_total(r@) == plane_total(src@),
        forall|i: int|
            0 <= i < r@.len() ==> (#[trigger] r@[i]) * (n / 4) * (n / 4) <= 0x8_0000_0000_0000,
{
    let half = pool2_plane(src, n);
    let r = pool2_plane(&half, n / 2);
    proof {
        assert(n / 2 / 2 == n / 4);
    }
    r
}

/// Build the coordinate mask for a `width x height` weight image laid onto
/// a square canvas: per canvas cell the scaled x and y numerators
/// `(2*px+1)*w` and `(2*py+1)*w` and the weight `w`, where `w` is the mask
/// value inside the image and zero in the padding. Coordinates are
/// normalised over the original sub-region regardless of the canvas size.
pub fn create_coordinate_mask(
    weights: &Vec<u8>,
    width: u32,
    height: u32,
    canvas_size: u32,
) -> (r: CoordinateMask)
    requires
        weights@.len() == width * height,
        1 <= width <= 16384,
        1 <= height <= 16384,
        1 <= canvas_size <= 16384,
    ensures
        r.wf(),
        r.size == canvas_size,
        r.sub_width == width,
        r.sub_height == height,
        plane_total(r.xs@) == mask_total_x(
            weights@,
            width as int,
            height as int,
            canvas_size as int,
        ),
        plane_total(r.ys@) == mask_total_y(
            weights@,
            width as int,
            height as int,
            canvas_size as int,
        ),
        plane_total(r.ws@) == mask_total_w(
            weights@,
            width as int,
            height as int,
            canvas_size as int,
        ),
{
    let n = canvas_size;
    let mut xs: Vec<u64> = Vec::new();
    let mut ys: Vec<u64> = Vec::new();
    let mut ws: Vec<u64> = Vec::new();
    let mut py: u32 = 0;
    while py < n
        invariant
            py <= n,
            1 <= n <= 16384,
            1 <= width <= 16384,
            1 <= height <= 16384,
            weights@.len() == width * height,
            xs@.len() == n * py,
            ys@.len() == n * py,
            ws@.len() == n * py,
            forall|i: int|
                0 <= i < n * py ==> #[trigger] xs@[i] == cm_cell_x(
                    weights@,
                    width as int,
                    height as int,
                    n as int,
                    i,
                ),
            forall|i: int|
                0 <= i < n * py ==> #[trigger] ys@[i] == cm_cell_y(
                    weights@,
                    width as int,
                    height as int,
                    n as int,
                    i,
                ),
            forall|i: int|
                0 <= i < n * py ==> #[trigger] ws@[i] == cm_cell_w(
                    weights@,
                    width as int,
                    height as int,
                    n as int,
                    i,
                ),
            forall|i: int| 0 <= i < n * py ==> #[trigger] xs@[i] <= 0x7f_8000,
            forall|i: int| 0 <= i < n * py ==> #[trigger] ys@[i] <= 0x7f_8000,
            forall|i: int| 0 <= i < n * py ==> #[trigger] ws@[i] <= 255,
        decreases n - py,
    {
        let mut px: u32 = 0;
        while px < n
            invariant
                px <= n,
                py < n,
                1 <= n <= 16384,
                1 <= width <= 16384,
                1 <= height <= 16384,
                weights@.len() == width * height,
                xs@.len() == n * py + px,
                ys@.len() == n * py + px,
                ws@.len() == n * py + px,
                forall|i: int|
                    0 <= i < n * py + px ==> #[trigger] xs@[i] == cm_cell_x(
                        weights@,
                        width as int,
                        height as int,
                        n as int,
                        i,
                    ),
                forall|i: int|
                    0 <= i < n * py + px ==> #[trigger] ys@[i] == cm_cell_y(
                        weights@,
                        width as int,
                        height as int,
                        n as int,
                        i,
                    ),
                forall|i: int|
                    0 <= i < n * py + px ==> #[trigger] ws@[i] == cm_cell_w(
                        weights@,
                        width as int,
                        height as int,
                        n as int,
                        i,
                    ),
                forall|i: int| 0 <= i < n * py + px ==> #[trigger] xs@[i] <= 0x7f_8000,
                forall|i: int| 0 <= i < n * py + px ==> #[trigger] ys@[i] <= 0x7f_8000,
                forall|i: int| 0 <= i < n * py + px ==> #[trigger] ws@[i] <= 255,
            decreases n - px,
        {
            let w: u8 = if px < width && py < height {
                proof {
                    assert(py * width + px < width * height && py * width + px >= 0 && py * width
                        + px <= 0x1000_0000) by (nonlinear_arith)
                        requires 0 <= px < width && 0 <= py < height && width <= 16384 && height
                            <= 16384;
                }
                weights[(py * width + px) as usize]
            } else {
                0
            };
            proof {
                assert(((px as int) * 2 + 1) * (w as int) <= 0xffff_ffff_ffff && ((py as int) * 2
                    + 1) * (w as int) <= 0xffff_ffff_ffff) by (nonlinear_arith)
                    requires 0 <= px <= 0xffff_ffff && 0 <= py <= 0xffff_ffff && 0 <= w <= 255;
            }
            let x_val: u64 = ((px as u64) * 2 + 1) * (w as u64);
            let y_val: u64 = ((py as u64) * 2 + 1) * (w as u64);
            let w_val: u64 = w as u64;
            proof {
                let i = n * py + px;
                assert(i == (py as int) * (n as int) + px) by (nonlinear_arith)
                    requires i == n * py + px;
                assert(i / (n as int) == py && i % (n as int) == px) by {
                    vstd::arithmetic::div_mod::lemma_fundamental_div_mod_converse(
                        i,
                        n as int,
                        py as int,
                        px as int,
                    );
                }
                assert(x_val <= 0x7f_8000 && y_val <= 0x7f_8000) by (nonlinear_arith)
                    requires x_val == (2 * px + 1) * w && y_val == (2 * py + 1) * w && 0 <= px
                        < 16384 && 0 <= py < 16384 && 0 <= w <= 255;
            }
            xs.push(x_val);
            ys.push(y_val);
            ws.push(w_val);
            px = px + 1;
        }
        proof {
            assert(n * (py + 1) == n * py + n) by (nonlinear_arith);
        }
        py = py + 1;
    }
    let r = CoordinateMask { size: n, sub_width: width, sub_height: height, xs, ys, ws };
    proof {
        assert(r.xs@.len() == n * n);
        let w_i = width as int;
        let h_i = height as int;
        let n_i = n as int;
        lemma_fsum_congruence(
            |i: int| r.xs@[i] as int,
            |i: int| cm_cell_x(weights@, w_i, h_i, n_i, i),
            0,
            n_i * n_i,
        );
        lemma_fsum_congruence(
            |i: int| r.ys@[i] as int,
            |i: int| cm_cell_y(weights@, w_i, h_i, n_i, i),
            0,
            n_i * n_i,
        );
        lemma_fsum_congruence(
            |i: int| r.ws@[i] as int,
            |i: int| cm_cell_w(weights@, w_i, h_i, n_i, i),
            0,
            n_i * n_i,
        );
        lemma_fsum_le_const(|i: int| r.xs@[i] as int, 0, n_i * n_i, 0x7f_8000);
        lemma_fsum_le_const(|i: int| r.ys@[i] as int, 0, n_i * n_i, 0x7f_8000);
        lemma_fsum_le_const(|i: int| r.ws@[i] as int, 0, n_i * n_i, 255);
        assert(n_i * n_i * 0x7f_8000 <= 0x8_0000_0000_0000 && n_i * n_i * 255 <= 0x10_0000_0000)
            by (nonlinear_arith)
            requires 1 <= n_i <= 16384;
        assert forall|i: int| 0 <= i < n_i * n_i implies (#[trigger] r.xs@[i]) * n_i * n_i
            <= 0x8_0000_0000_0000 by {
            assert(r.xs@[i] * n_i * n_i <= 0x7f_8000 * n_i * n_i) by (nonlinear_arith)
                requires r.xs@[i] <= 0x7f_8000 && n_i >= 1;
            assert(0x7f_8000 * n_i * n_i <= 0x8_0000_0000_0000) by (nonlinear_arith)
                requires 1 <= n_i <= 16384;
        }
        assert forall|i: int| 0 <= i < n_i * n_i implies (#[trigger] r.ys@[i]) * n_i * n_i
            <= 0x8_0000_0000_0000 by {
            assert(r.ys@[i] * n_i * n_i <= 0x7f_8000 * n_i * n_i) by (nonlinear_arith)
                requires r.ys@[i] <= 0x7f_8000 && n_i >= 1;
            assert(0x7f_8000 * n_i * n_i <= 0x8_0000_0000_0000) by (nonlinear_arith)
                requires 1 <= n_i <= 16384;
        }
        assert forall|i: int| 0 <= i < n_i * n_i implies (#[trigger] r.ws@[i]) * n_i * n_i
            <= 0x8_0000_0000_0000 by {
            assert(r.ws@[i] * n_i * n_i <= 255 * n_i * n_i) by (nonlinear_arith)
                requires r.ws@[i] <= 255 && n_i >= 1;
            assert(255 * n_i * n_i <= 0x8_0000_0000_0000) by (nonlinear_arith)
                requires 1 <= n_i <= 16384;
        }
    }
    r
}

/// Hierarchically reduce the coordinate mask to the three sums of its
/// single surviving cell, following the selected pass schedule: 4x passes
/// greedily (then one final 2x pass when the exponent is odd), or 2x passes
/// throughout. Whatever the schedule and whether or not the device would
/// sample, the result equals the exact single-pass totals of the mask: the
/// hierarchical reduction is associative summation.
pub fn reduce(cm: &CoordinateMask, strategy: PoolingStrategy) -> (r: (u64, u64, u64))
    requires
        cm.wf(),
        is_pow2(cm.size as nat),
    ensures
        r.0 == plane_total(cm.xs@),
        r.1 == plane_total(cm.ys@),
        r.2 == plane_total(cm.ws@),
{
    let mut xs = copy_plane(&cm.xs);
    let mut ys = copy_plane(&cm.ys);
    let mut ws = copy_plane(&cm.ws);
    let mut size = cm.size;
    let use4 = match strategy {
        PoolingStrategy::Pooling4 | PoolingStrategy::SampledPooling4 => true,
        PoolingStrategy::Pooling2 | PoolingStrategy::SampledPooling2 => false,
    };
    while size > 1
        invariant
            1 <= size <= 16384,
            is_pow2(size as nat),
            xs@.len() == size * size,
            ys@.len() == size * size,
            ws@.len() == size * size,
            plane_total(xs@) == plane_total(cm.xs@),
            plane_total(ys@) == plane_total(cm.ys@),
            plane_total(ws@) == plane_total(cm.ws@),
            forall|i: int|
                0 <= i < xs@.len() ==> (#[trigger] xs@[i]) * size * size <= 0x8_0000_0000_0000,
            forall|i: int|
                0 <= i < ys@.len() ==> (#[trigger] ys@[i]) * size * size <= 0x8_0000_0000_0000,
            forall|i: int|
                0 <= i < ws@.len() ==> (#[trigger] ws@[i]) * size * size <= 0x8_0000_0000_0000,
        decreases size,
    {
        proof {
            lemma_pow2_half(size as nat);
        }
        if use4 && size % 4 == 0 {
            proof {
                lemma_pow2_half((size / 2) as nat);
            }
            xs = pool4_plane(&xs, size);
            ys = pool4_plane(&ys, size);
            ws = pool4_plane(&ws, size);
            size = size / 4;
        } else {
            xs = pool2_plane(&xs, size);
            ys = pool2_plane(&ys, size);
            ws = pool2_plane(&ws, size);
            size = size / 2;
        }
    }
    proof {
        assert(xs@.len() == 1 && ys@.len() == 1 && ws@.len() == 1);
        assert(plane_total(xs@) == fsum(|i: int| xs@[i] as int, 0, 1));
        assert(fsum(|i: int| xs@[i] as int, 0, 0) == 0);
        assert(fsum(|i: int| ys@[i] as int, 0, 0) == 0);
        assert(fsum(|i: int| ws@[i] as int, 0, 0) == 0);
        assert(fsum(|i: int| xs@[i] as int, 0, 1) == fsum(|i: int| xs@[i] as int, 0, 0) + (
        |i: int| xs@[i] as int)(0));
        assert(fsum(|i: int| ys@[i] as int, 0, 1) == fsum(|i: int| ys@[i] as int, 0, 0) + (
        |i: int| ys@[i] as int)(0));
        assert(fsum(|i: int| ws@[i] as int, 0, 1) == fsum(|i: int| ws@[i] as int, 0, 0) + (
        |i: int| ws@[i] as int)(0));
    }
    (xs[0], ys[0], ws[0])
}

/// The weighted centroid as exact fractions: `x = x_num / x_den` and
/// `y = y_num / y_den`, with the total weight alongside. The denominators
/// carry the coordinate scaling `2 * sub_dimension * weight`.
#[derive(Clone, Copy, Debug, PartialEq, Eq, Structural)]
pub struct Centroid {
    pub x_num: u64,
    pub x_den: u64,
    pub y_num: u64,
    pub y_den: u64,
    pub weight: u64,
}

/// Decode a coordinate mask into its centroid by the reference single-pass
/// summation. An all-zero mask has no centroid: the result is `None`, the
/// caller's "no detection" branch, never a division by zero.
pub fn calculate_centroid(cm: &CoordinateMask) -> (r: Option<Centroid>)
    requires
        cm.wf(),
    ensures
        match r {
            Some(c) => {
                &&& plane_total(cm.ws@) > 0
                &&& c.x_num == plane_total(cm.xs@)
                &&& c.x_den == 2 * cm.sub_width * plane_total(cm.ws@)
                &&& c.y_num == plane_total(cm.ys@)
                &&& c.y_den == 2 * cm.sub_height * plane_total(cm.ws@)
                &&& c.weight == plane_total(cm.ws@)
            },
            None => plane_total(cm.ws@) == 0,
        },
{
    let sx = plane_sum(&cm.xs);
    let sy = plane_sum(&cm.ys);
    let sw = plane_sum(&cm.ws);
    if sw == 0 {
        None
    } else {
        proof {
            assert(2 * cm.sub_width * sw <= 2 * 16384 * 0x10_0000_0000 && 2 * cm.sub_height * sw
                <= 2 * 16384 * 0x10_0000_0000) by (nonlinear_arith)
                requires 1 <= cm.sub_width <= 16384 && 1 <= cm.sub_height <= 16384 && 0 <= sw
                    <= 0x10_0000_0000;
        }
        let x_den = 2 * (cm.sub_width as u64) * sw;
        let y_den = 2 * (cm.sub_height as u64) * sw;
        Some(Centroid { x_num: sx, x_den, y_num: sy, y_den, weight: sw })
    }
}

/// Decompose a mask total into row sums: each row `y` of the canvas
/// contributes the sum of `cell(y*n + t)` over `t < n`.
proof fn lemma_mask_rows(cell: spec_fn(int) -> int, n: int)
    requires
        n >= 1,
    ensures
        fsum(cell, 0, n * n) == fsum(|y: int| fsum(|t: int| cell(n * y + t), 0, n), 0, n),
{
    let row = |y: int| fsum(|t: int| cell(n * y + t), 0, n);
    assert forall|i: int| 0 <= i < n implies #[trigger] row(i) == fsum(
        |t: int| cell(n * i + t),
        0,
        n,
    ) by {}
    lemma_fsum_blocks(row, cell, n, n);
}

/// Centroid correctness for a single fully-lit `k x k` block at `(bx, by)`
/// on an `n x n` power-of-two mask: the weight is `k*k` and the scaled
/// coordinate sums are `k*k*(2*bx+k)` and `k*k*(2*by+k)`. Dividing,
/// the centroid is `((bx + k/2)/n, (by + k/2)/n)`, the block's middle.
pub proof fn lemma_block_mask_sums(weights: Seq<u8>, n: int, bx: int, by: int, k: int)
    requires
        n >= 1,
        weights.len() == n * n,
        0 <= bx,
        0 <= by,
        0 <= k,
        bx + k <= n,
        by + k <= n,
        forall|px: int, py: int|
            0 <= px < n && 0 <= py < n ==> #[trigger] weights[py * n + px] == (if bx <= px < bx + k
                && by <= py < by + k {
                1u8
            } else {
                0u8
            }),
    ensures
        mask_total_w(weights, n, n, n) == k * k,
        mask_total_x(weights, n, n, n) == k * k * (2 * bx + k),
        mask_total_y(weights, n, n, n) == k * k * (2 * by + k),
{
    let cw = |i: int| cm_cell_w(weights, n, n, n, i);
    let cx = |i: int| cm_cell_x(weights, n, n, n, i);
    let cy = |i: int| cm_cell_y(weights, n, n, n, i);
    // weight at (px, py), as the cells see it
    assert forall|px: int, py: int| 0 <= px < n && 0 <= py < n implies #[trigger] mask_weight(
        weights,
        n,
        n,
        px,
        py,
    ) == (if bx <= px < bx + k && by <= py < by + k {
        1int
    } else {
        0int
    }) by {
        assert(weights[py * n + px] == (if bx <= px < bx + k && by <= py < by + k {
            1u8
        } else {
            0u8
        }));
    }
    // flat index decomposition inside each row
    assert forall|y: int, t: int| 0 <= y < n && 0 <= t < n implies (#[trigger] ((n * y + t) % n))
        == t && (n * y + t) / n == y by {
        assert(n * y + t == y * n + t) by (nonlinear_arith);
        vstd::arithmetic::div_mod::lemma_fundamental_div_mod_converse(n * y + t, n, y, t);
    }
    lemma_mask_rows(cw, n);
    lemma_mask_rows(cx, n);
    lemma_mask_rows(cy, n);
    let roww = |y: int| fsum(|t: int| cw(n * y + t), 0, n);
    let rowx = |y: int| fsum(|t: int| cx(n * y + t), 0, n);
    let rowy = |y: int| fsum(|t: int| cy(n * y + t), 0, n);
    // each row's value in closed form
    assert forall|y: int| 0 <= y < n implies #[trigger] roww(y) == (if by <= y < by + k {
        k
    } else {
        0int
    }) && rowx(y) == (if by <= y < by + k {
        k * (2 * bx + k)
    } else {
        0int
    }) && rowy(y) == (if by <= y < by + k {
        (2 * y + 1) * k
    } else {
        0int
    }) by {
        let fw = |t: int| cw(n * y + t);
        let fx = |t: int| cx(n * y + t);
        let fy = |t: int| cy(n * y + t);
        if by <= y < by + k {
            lemma_fsum_split(fw, 0, bx, n);
            lemma_fsum_split(fw, bx, bx + k, n);
            lemma_fsum_const(fw, 0, bx, 0);
            lemma_fsum_const(fw, bx, bx + k, 1);
            lemma_fsum_const(fw, bx + k, n, 0);
            assert(roww(y) == k * 1 + 0 + 0);
            lemma_fsum_split(fx, 0, bx, n);
            lemma_fsum_split(fx, bx, bx + k, n);
            lemma_fsum_const(fx, 0, bx, 0);
            lemma_fsum_const(fx, bx + k, n, 0);
            assert forall|t: int| bx <= t < bx + k implies #[trigger] fx(t) == 2 * t + 1 by {
                assert(cx(n * y + t) == (2 * t + 1) * 1);
            }
            lemma_fsum_congruence(fx, |t: int| 2 * t + 1, bx, bx + k);
            assert(fsum(|t: int| 2 * t + 1, bx, bx + k) == k * (2 * bx + k)) by {
                lemma_odd_sum(bx, k);
            }
            lemma_fsum_split(fy, 0, bx, n);
            lemma_fsum_split(fy, bx, bx + k, n);
            lemma_fsum_const(fy, 0, bx, 0);
            lemma_fsum_const(fy, bx + k, n, 0);
            lemma_fsum_const(fy, bx, bx + k, 2 * y + 1);
            assert(rowy(y) == k * (2 * y + 1));
            assert(k * (2 * y + 1) == (2 * y + 1) * k) by (nonlinear_arith);
        } else {
            lemma_fsum_const(fw, 0, n, 0);
            lemma_fsum_const(fx, 0, n, 0);
            lemma_fsum_const(fy, 0, n, 0);
        }
    }
    // outer sums over the rows
    assert forall|y: int| 0 <= y < n && !(by <= y < by + k) implies #[trigger] rowx(y) == 0 by {
        assert(roww(y) == 0);
    }
    assert forall|y: int| by <= y < by + k implies #[trigger] rowx(y) == k * (2 * bx + k) by {
        assert(roww(y) == k);
    }
    assert forall|y: int| 0 <= y < n && !(by <= y < by + k) implies #[trigger] rowy(y) == 0 by {
        assert(roww(y) == 0);
    }
    assert forall|y: int| by <= y < by + k implies #[trigger] rowy(y) == (2 * y + 1) * k by {
        assert(roww(y) == k);
    }
    lemma_fsum_split(roww, 0, by, n);
    lemma_fsum_split(roww, by, by + k, n);
    lemma_fsum_const(roww, 0, by, 0);
    lemma_fsum_const(roww, by, by + k, k);
    lemma_fsum_const(roww, by + k, n, 0);
    assert(mask_total_w(weights, n, n, n) == k * k);
    lemma_fsum_split(rowx, 0, by, n);
    lemma_fsum_split(rowx, by, by + k, n);
    lemma_fsum_const(rowx, 0, by, 0);
    lemma_fsum_const(rowx, by, by + k, k * (2 * bx + k));
    lemma_fsum_const(rowx, by + k, n, 0);
    assert(mask_total_x(weights, n, n, n) == k * (k * (2 * bx + k)));
    assert(k * (k * (2 * bx + k)) == k * k * (2 * bx + k)) by (nonlinear_arith);
    lemma_fsum_split(rowy, 0, by, n);
    lemma_fsum_split(rowy, by, by + k, n);
    lemma_fsum_const(rowy, 0, by, 0);
    lemma_fsum_const(rowy, by + k, n, 0);
    assert forall|y: int| by <= y < by + k implies #[trigger] rowy(y) == k * (2 * y + 1) by {
        assert(roww(y) == k);
        assert((2 * y + 1) * k == k * (2 * y + 1)) by (nonlinear_arith);
    }
    lemma_fsum_scale(|y: int| 2 * y + 1, rowy, by, by + k, k);
    lemma_odd_sum(by, k);
    assert(mask_total_y(weights, n, n, n) == k * (k * (2 * by + k)));
    assert(k * (k * (2 * by + k)) == k * k * (2 * by + k)) by (nonlinear_arith);
}

/// Uniform-mask law: a fully-lit `n x n` mask weighs `n*n` and its scaled
/// coordinate sums are `n*n*n` on both axes, so the centroid is
/// `(n^3 / (2*n*n^2), ...) = (1/2, 1/2)`.
pub proof fn lemma_uniform_mask_sums(weights: Seq<u8>, n: int)
    requires
        n >= 1,
        weights.len() == n * n,
        forall|px: int, py: int|
            0 <= px < n && 0 <= py < n ==> #[trigger] weights[py * n + px] == 1u8,
    ensures
        mask_total_w(weights, n, n, n) == n * n,
        mask_total_x(weights, n, n, n) == n * n * n,
        mask_total_y(weights, n, n, n) == n * n * n,
{
    assert forall|px: int, py: int| 0 <= px < n && 0 <= py < n implies #[trigger] weights[py * n
        + px] == (if 0 <= px < 0 + n && 0 <= py < 0 + n {
        1u8
    } else {
        0u8
    }) by {}
    lemma_block_mask_sums(weights, n, 0, 0, n);
    assert(n * n * (2 * 0 + n) == n * n * n) by (nonlinear_arith);
}

} // verus!
