//! The grid of instances: where each quad stands and what color it has.
//!
//! Lengths are exact rationals. A quad's edge length is a `Ratio`; the
//! translations of a layout are integers over one common denominator.

use vstd::arithmetic::div_mod::lemma_fundamental_div_mod_converse;
use vstd::prelude::*;

use crate::color::next_color;

verus! {

/// The largest number of instances that the instance buffer holds.
pub const MAX_INSTANCE_COUNT: u32 = 2048;

/// The number of instances along each side of the grid that the demo draws.
pub const INSTANCES_PER_SIDE: u32 = 32;

/// A non-negative rational number `num / den`.
#[derive(Clone, Copy, Debug, PartialEq, Eq, Structural)]
pub struct Ratio {
    pub num: u32,
    pub den: u32,
}

/// The size of a grid: instances per side, their count, and the edge length of each quad.
#[derive(Clone, Copy, Debug, PartialEq, Eq, Structural)]
pub struct GridConfig {
    pub per_side: u32,
    pub count: u32,
    pub quad: Ratio,
}

/// Whether `n * n` instances fit in the instance buffer.
pub open spec fn fits_capacity(n: int) -> bool {
    n * n <= MAX_INSTANCE_COUNT
}

/// The edge length that makes `n` quads and their gaps span the viewport: `1.6 / n`.
pub open spec fn default_quad(n: int) -> Ratio {
    Ratio { num: 8, den: (5 * n) as u32 }
}

proof fn lemma_fits_bounds(n: int)
    requires
        0 <= n,
        fits_capacity(n),
    ensures
        n <= 45,
{
    if n > 45 {
        assert(n * n > 2048) by (nonlinear_arith)
            requires
                n > 45,
        ;
    }
}

/// One quad of the grid: its translation is `(tx / denom, ty / denom)`, with the
/// common denominator `denom` of its layout, and its color is packed as 0xRRGGBBAA.
#[derive(Clone, Copy, Debug, PartialEq, Eq, Structural)]
pub struct Instance {
    pub tx: i64,
    pub ty: i64,
    pub color: u32,
}

/// The instances of a grid, in row-major order, and the denominator of their translations.
#[derive(Debug)]
pub struct Layout {
    pub denom: i64,
    pub instances: Vec<Instance>,
}

/// The common denominator of a layout of `n` per side with quad edge `q`: `10 * (n + 1) * q.den`.
pub open spec fn denom_of(n: int, q: Ratio) -> int {
    10 * (n + 1) * q.den
}

/// The gap `0.4 / (n + 1)` between neighbouring quads, and between the outer quads and
/// the viewport's edge, over `denom_of(n, q)`.
pub open spec fn gap_num(q: Ratio) -> int {
    4 * q.den
}

/// The edge length `q` over `denom_of(n, q)`.
pub open spec fn quad_num(n: int, q: Ratio) -> int {
    10 * (n + 1) * q.num
}

/// The center of the first quad, `-1 + gap + q / 2`, over `denom_of(n, q)`.
pub open spec fn begin_num(n: int, q: Ratio) -> int {
    gap_num(q) - denom_of(n, q) + 5 * (n + 1) * q.num
}

/// The distance `q + gap` between the centers of neighbouring quads, over `denom_of(n, q)`.
pub open spec fn step_num(n: int, q: Ratio) -> int {
    quad_num(n, q) + gap_num(q)
}

/// The center of the quad in column or row `k`, over `denom_of(n, q)`.
pub open spec fn coord_num(n: int, q: Ratio, k: int) -> int {
    begin_num(n, q) + k * step_num(n, q)
}

/// Where the instance at grid cell `(x, y)` stands in row-major order.
pub open spec fn grid_index(n: int, x: int, y: int) -> int {
    x * n + y
}

/// `s` holds the translations of the `n` by `n` grid of quads of edge `q`, over
/// `denom`: cell `(x, y)` at index `grid_index(n, x, y)`, centered at
/// `(coord_num(n, q, x), coord_num(n, q, y))`.
pub open spec fn is_grid(denom: int, s: Seq<Instance>, n: int, q: Ratio) -> bool {
    &&& denom == denom_of(n, q)
    &&& s.len() == n * n
    &&& forall|x: int, y: int|
        0 <= x < n && 0 <= y < n ==> {
            &&& (#[trigger] s[grid_index(n, x, y)]).tx == coord_num(n, q, x)
            &&& s[grid_index(n, x, y)].ty == coord_num(n, q, y)
        }
}

/// Instance `i` of `s` has color `colors[i]`.
pub open spec fn has_colors(s: Seq<Instance>, colors: Seq<u32>) -> bool {
    &&& s.len() == colors.len()
    &&& forall|i: int| 0 <= i < s.len() ==> (#[trigger] s[i]).color == colors[i]
}

/// Cell `(x, y)` of a grid of `n` per side lies at an index in `[0, n * n)`, and
/// that index gives the cell back.
pub proof fn lemma_grid_index(n: int, x: int, y: int)
    requires
        0 <= x < n,
        0 <= y < n,
    ensures
        0 <= grid_index(n, x, y) < n * n,
        grid_index(n, x, y) / n == x,
        grid_index(n, x, y) % n == y,
{
    assert(0 <= x * n + y < n * n) by (nonlinear_arith)
        requires
            0 <= x < n,
            0 <= y < n,
    ;
    lemma_fundamental_div_mod_converse(x * n + y, n, x, y);
}

/// Every index in `[0, n * n)` is the index of one cell of the grid: cells and
/// indices correspond one to one.
pub proof fn lemma_grid_index_onto(n: int, i: int)
    requires
        0 <= n,
        0 <= i < n * n,
    ensures
        0 <= i / n < n,
        0 <= i % n < n,
        grid_index(n, i / n, i % n) == i,
        forall|x: int, y: int|
            0 <= x < n && 0 <= y < n && grid_index(n, x, y) == i ==> x == i / n && y == i % n,
{
    assert(n > 0) by (nonlinear_arith)
        requires
            0 <= n,
            0 <= i < n * n,
    ;
    vstd::arithmetic::div_mod::lemma_fundamental_div_mod(i, n);
    assert(i / n < n) by (nonlinear_arith)
        requires
            n > 0,
            0 <= i < n * n,
            i == n * (i / n) + i % n,
            0 <= i % n < n,
    ;
    assert(0 <= i / n) by (nonlinear_arith)
        requires
            n > 0,
            0 <= i,
            i == n * (i / n) + i % n,
            i % n < n,
    ;
    assert((i / n) * n == n * (i / n)) by (nonlinear_arith);
    assert forall|x: int, y: int|
        0 <= x < n && 0 <= y < n && grid_index(n, x, y) == i implies x == i / n && y == i % n by {
        lemma_grid_index(n, x, y);
    }
}

proof fn lemma_coord_bounds(n: int, q: Ratio, k: int)
    requires
        0 <= n <= 45,
        0 <= k < 45,
    ensures
        0 <= (n + 1) * q.den <= 46 * 0xffff_ffff,
        0 <= (n + 1) * q.num <= 46 * 0xffff_ffff,
        denom_of(n, q) == 10 * ((n + 1) * q.den),
        begin_num(n, q) == gap_num(q) - denom_of(n, q) + 5 * ((n + 1) * q.num),
        step_num(n, q) == 10 * ((n + 1) * q.num) + gap_num(q),
        0 < denom_of(n, q) + 1 <= 0x7fff_ffff_ffff,
        -0x7fff_ffff_ffff <= begin_num(n, q) <= 0x7fff_ffff_ffff,
        0 <= step_num(n, q) <= 0x7fff_ffff_ffff,
        0 <= k * step_num(n, q) <= 45 * 0x7fff_ffff_ffff,
        -0x7fff_ffff_ffff_ffff <= coord_num(n, q, k) <= 0x7fff_ffff_ffff_ffff,
{
    let num = q.num as int;
    let den = q.den as int;
    assert(0 <= (n + 1) * den <= 46 * 0xffff_ffff) by (nonlinear_arith)
        requires
            0 <= n <= 45,
            0 <= den <= 0xffff_ffff,
    ;
    assert(0 <= (n + 1) * num <= 46 * 0xffff_ffff) by (nonlinear_arith)
        requires
            0 <= n <= 45,
            0 <= num <= 0xffff_ffff,
    ;
    assert(10 * (n + 1) * den == 10 * ((n + 1) * den)) by (nonlinear_arith);
    assert(10 * (n + 1) * num == 10 * ((n + 1) * num)) by (nonlinear_arith);
    assert(5 * (n + 1) * num == 5 * ((n + 1) * num)) by (nonlinear_arith);
    let st = step_num(n, q);
    assert(0 <= k * st <= 45 * 0x7fff_ffff_ffff) by (nonlinear_arith)
        requires
            0 <= k < 45,
            0 <= st <= 0x7fff_ffff_ffff,
    ;
}

/// The layout of a `per_side` by `per_side` grid of quads of edge `quad`, with
/// instance `i` colored `colors[i]`.
pub fn layout_instances(per_side: u32, quad: Ratio, colors: &Vec<u32>) -> (r: Layout)
    requires
        fits_capacity(per_side as int),
        colors@.len() == per_side * per_side,
    ensures
        is_grid(r.denom as int, r.instances@, per_side as int, quad),
        has_colors(r.instances@, colors@),
{
    proof {
        lemma_fits_bounds(per_side as int);
    }
    let ghost n = per_side as int;
    let n64 = per_side as i64;
    let num = quad.num as i64;
    let den = quad.den as i64;
    proof {
        lemma_coord_bounds(n, quad, 0);
    }
    let denom: i64 = 10 * ((n64 + 1) * den);
    let gap: i64 = 4 * den;
    let begin: i64 = gap - denom + 5 * ((n64 + 1) * num);
    let step: i64 = 10 * ((n64 + 1) * num) + gap;
    let mut instances: Vec<Instance> = Vec::new();
    let mut x: u32 = 0;
    while x < per_side
        invariant
            n == per_side,
            0 <= n <= 45,
            n * n <= 2048,
            x <= per_side,
            colors@.len() == n * n,
            denom == denom_of(n, quad),
            begin == begin_num(n, quad),
            step == step_num(n, quad),
            instances@.len() == x * n,
            forall|i: int|
                0 <= i < instances@.len() ==> {
                    &&& (#[trigger] instances@[i]).tx == coord_num(n, quad, i / n)
                    &&& instances@[i].ty == coord_num(n, quad, i % n)
                    &&& instances@[i].color == colors@[i]
                },
        decreases per_side - x,
    {
        proof {
            lemma_coord_bounds(n, quad, x as int);
        }
        let tx: i64 = begin + (x as i64) * step;
        let mut y: u32 = 0;
        while y < per_side
            invariant
                n == per_side,
                0 <= n <= 45,
                n * n <= 2048,
                x < per_side,
                y <= per_side,
                colors@.len() == n * n,
                begin == begin_num(n, quad),
                step == step_num(n, quad),
                tx == coord_num(n, quad, x as int),
                instances@.len() == x * n + y,
                forall|i: int|
                    0 <= i < instances@.len() ==> {
                        &&& (#[trigger] instances@[i]).tx == coord_num(n, quad, i / n)
                        &&& instances@[i].ty == coord_num(n, quad, i % n)
                        &&& instances@[i].color == colors@[i]
                    },
            decreases per_side - y,
        {
            proof {
                lemma_coord_bounds(n, quad, y as int);
                lemma_grid_index(n, x as int, y as int);
                assert(x * n <= x * n + y);
            }
            let i: usize = (x as usize) * (per_side as usize) + (y as usize);
            let ty: i64 = begin + (y as i64) * step;
            instances.push(Instance { tx, ty, color: colors[i] });
            y = y + 1;
        }
        proof {
            assert((x + 1) * n == x * n + n) by (nonlinear_arith);
        }
        x = x + 1;
    }
    proof {
        assert forall|cx: int, cy: int| 0 <= cx < n && 0 <= cy < n implies {
            &&& (#[trigger] instances@[grid_index(n, cx, cy)]).tx == coord_num(n, quad, cx)
            &&& instances@[grid_index(n, cx, cy)].ty == coord_num(n, quad, cy)
        } by {
            lemma_grid_index(n, cx, cy);
        }
    }
    Layout { denom, instances }
}

/// The layout of a `per_side` by `per_side` grid of quads of edge `quad`, with a
/// color drawn from `rng` for each instance, in index order.
pub fn fill_instances(per_side: u32, quad: Ratio, rng: &mut rand::StdRng) -> (r: Layout)
    requires
        fits_capacity(per_side as int),
    ensures
        is_grid(r.denom as int, r.instances@, per_side as int, quad),
{
    proof {
        lemma_fits_bounds(per_side as int);
        let n = per_side as int;
        assert(n * n <= 45 * 45) by (nonlinear_arith)
            requires
                0 <= n <= 45,
        ;
    }
    let count: usize = (per_side as usize) * (per_side as usize);
    let mut colors: Vec<u32> = Vec::new();
    let mut i: usize = 0;
    while i < count
        invariant
            i <= count,
            colors@.len() == i,
        decreases count - i,
    {
        colors.push(next_color(rng));
        i = i + 1;
    }
    layout_instances(per_side, quad, &colors)
}

proof fn lemma_coord_within(n: int, q: Ratio, k: int)
    requires
        0 <= k < n,
        5 * (2 * n - 1) * q.num <= 16 * q.den,
    ensures
        gap_num(q) - denom_of(n, q) <= coord_num(n, q, k) <= denom_of(n, q) - gap_num(q),
{
    let num = q.num as int;
    let den = q.den as int;
    let st = step_num(n, q);
    assert(0 <= st) by (nonlinear_arith)
        requires
            st == 10 * (n + 1) * num + 4 * den,
            0 <= n,
            0 <= num,
            0 <= den,
    ;
    assert(0 <= k * st <= (n - 1) * st) by (nonlinear_arith)
        requires
            0 <= k <= n - 1,
            0 <= st,
    ;
    assert(0 <= 5 * (n + 1) * num) by (nonlinear_arith)
        requires
            0 <= n,
            0 <= num,
    ;
    let last = coord_num(n, q, n - 1);
    let bound = denom_of(n, q) - gap_num(q);
    assert(last + (n + 1) * (16 * den - 5 * (2 * n - 1) * num) == bound) by (nonlinear_arith)
        requires
            last == 4 * den - 10 * (n + 1) * den + 5 * (n + 1) * num + (n - 1) * (10 * (n + 1)
                * num + 4 * den),
            bound == 10 * (n + 1) * den - 4 * den,
    ;
    assert(0 <= (n + 1) * (16 * den - 5 * (2 * n - 1) * num)) by (nonlinear_arith)
        requires
            0 <= n,
            5 * (2 * n - 1) * num <= 16 * den,
    ;
}

/// Every quad's center lies inside the margin: each component of each translation
/// is between `-1 + gap` and `1 - gap`. This holds whenever the last quad's center
/// does, that is when `q * (n - 1/2) <= 1.6`.
pub proof fn lemma_translations_within_margin(denom: int, s: Seq<Instance>, n: int, q: Ratio)
    requires
        0 <= n,
        is_grid(denom, s, n, q),
        5 * (2 * n - 1) * q.num <= 16 * q.den,
    ensures
        forall|i: int|
            0 <= i < s.len() ==> {
                &&& gap_num(q) - denom <= (#[trigger] s[i]).tx <= denom - gap_num(q)
                &&& gap_num(q) - denom <= s[i].ty <= denom - gap_num(q)
            },
{
    assert forall|i: int| 0 <= i < s.len() implies {
        &&& gap_num(q) - denom <= (#[trigger] s[i]).tx <= denom - gap_num(q)
        &&& gap_num(q) - denom <= s[i].ty <= denom - gap_num(q)
    } by {
        lemma_grid_index_onto(n, i);
        assert(s[grid_index(n, i / n, i % n)] == s[i]);
        lemma_coord_within(n, q, i / n);
        lemma_coord_within(n, q, i % n);
    }
}

/// The spacing of the grid is uniform: the quad at `(x, y + 1)` stands `quad + gap`
/// further along the second axis than the one at `(x, y)`, and level with it on the
/// first. Over the layout's denominator, `quad_num(n, q)` is the quad's edge `q` and
/// `gap_num(q)` is the gap `0.4 / (n + 1)`.
pub proof fn lemma_uniform_spacing(denom: int, s: Seq<Instance>, n: int, q: Ratio, x: int, y: int)
    requires
        is_grid(denom, s, n, q),
        0 <= x < n,
        0 <= y,
        y + 1 < n,
    ensures
        s[grid_index(n, x, y + 1)].ty - s[grid_index(n, x, y)].ty == quad_num(n, q) + gap_num(q),
        s[grid_index(n, x, y + 1)].tx == s[grid_index(n, x, y)].tx,
        quad_num(n, q) * q.den == q.num * denom,
        gap_num(q) * (5 * (n + 1)) == 2 * denom,
{
    assert(coord_num(n, q, y + 1) == coord_num(n, q, y) + step_num(n, q)) by (nonlinear_arith);
    assert(quad_num(n, q) * q.den == q.num * denom_of(n, q)) by (nonlinear_arith);
    assert(gap_num(q) * (5 * (n + 1)) == 2 * denom_of(n, q)) by (nonlinear_arith);
}

/// Laying out the same grid twice gives the same translations, whatever the colors.
pub proof fn lemma_layout_shape_deterministic(
    denom1: int,
    s1: Seq<Instance>,
    denom2: int,
    s2: Seq<Instance>,
    n: int,
    q: Ratio,
)
    requires
        0 <= n,
        is_grid(denom1, s1, n, q),
        is_grid(denom2, s2, n, q),
    ensures
        denom1 == denom2,
        s1.len() == s2.len(),
        forall|i: int|
            0 <= i < s1.len() ==> (#[trigger] s1[i]).tx == s2[i].tx && s1[i].ty == s2[i].ty,
{
    assert forall|i: int| 0 <= i < s1.len() implies (#[trigger] s1[i]).tx == s2[i].tx && s1[i].ty
        == s2[i].ty by {
        lemma_grid_index_onto(n, i);
        assert(s1[grid_index(n, i / n, i % n)] == s1[i]);
        assert(s2[grid_index(n, i / n, i % n)] == s2[i]);
    }
}

impl GridConfig {
    /// The grid with `per_side` instances along each side and quads of edge `1.6 / per_side`;
    /// `None` when `per_side * per_side` exceeds `MAX_INSTANCE_COUNT`.
    pub fn new(per_side: u32) -> (r: Option<GridConfig>)
        requires
            per_side > 0,
        ensures
            fits_capacity(per_side as int) <==> r.is_some(),
            r matches Some(c) ==> c == (GridConfig {
                per_side,
                count: (per_side * per_side) as u32,
                quad: default_quad(per_side as int),
            }),
    {
        proof {
            let n = per_side as int;
            assert(n * n <= 0xffff_ffff * 0xffff_ffff) by (nonlinear_arith)
                requires
                    0 <= n <= 0xffff_ffff,
            ;
        }
        let sq: u64 = per_side as u64 * per_side as u64;
        if sq > MAX_INSTANCE_COUNT as u64 {
            None
        } else {
            proof {
                lemma_fits_bounds(per_side as int);
            }
            Some(GridConfig { per_side, count: sq as u32, quad: Ratio { num: 8, den: 5 * per_side } })
        }
    }
}

} // verus!
