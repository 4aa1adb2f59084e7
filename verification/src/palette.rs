//! The approved bead colors and color quantization.
use vstd::prelude::*;

verus! {

/// Number of approved bead colors.
pub const APPROVED_COLOR_COUNT: usize = 10;

/// An RGB color.
pub type Rgb = (u8, u8, u8);

/// The approved colors, in order: white, yellow, orange, red, purple, pink,
/// blue, light green, brown, black.
pub open spec fn palette(i: int) -> Rgb {
    if i == 0 {
        (255u8, 255u8, 255u8)
    } else if i == 1 {
        (255u8, 255u8, 0u8)
    } else if i == 2 {
        (255u8, 165u8, 0u8)
    } else if i == 3 {
        (255u8, 0u8, 0u8)
    } else if i == 4 {
        (128u8, 0u8, 128u8)
    } else if i == 5 {
        (255u8, 192u8, 203u8)
    } else if i == 6 {
        (0u8, 0u8, 255u8)
    } else if i == 7 {
        (144u8, 238u8, 144u8)
    } else if i == 8 {
        (139u8, 69u8, 19u8)
    } else {
        (0u8, 0u8, 0u8)
    }
}

/// A color is approved when it is one of the ten palette entries.
pub open spec fn is_approved(c: Rgb) -> bool {
    exists|i: int| 0 <= i < 10 && #[trigger] palette(i) == c
}

/// The approved color at position `i` of the palette.
pub fn approved_color(i: usize) -> (c: Rgb)
    requires
        i < APPROVED_COLOR_COUNT,
    ensures
        c == palette(i as int),
        is_approved(c),
{
    let c: Rgb = if i == 0 {
        (255, 255, 255)
    } else if i == 1 {
        (255, 255, 0)
    } else if i == 2 {
        (255, 165, 0)
    } else if i == 3 {
        (255, 0, 0)
    } else if i == 4 {
        (128, 0, 128)
    } else if i == 5 {
        (255, 192, 203)
    } else if i == 6 {
        (0, 0, 255)
    } else if i == 7 {
        (144, 238, 144)
    } else if i == 8 {
        (139, 69, 19)
    } else {
        (0, 0, 0)
    };
    proof {
        assert(palette(i as int) == c);
    }
    c
}

/// Squared Euclidean distance between two colors in RGB space.
pub open spec fn dist2(a: Rgb, b: Rgb) -> int {
    (a.0 - b.0) * (a.0 - b.0) + (a.1 - b.1) * (a.1 - b.1) + (a.2 - b.2) * (a.2 - b.2)
}

/// Index of the first palette color among the first `k` that is nearest to `c`.
pub open spec fn nearest_index_upto(c: Rgb, k: int) -> int
    decreases k,
{
    if k <= 1 {
        0
    } else {
        let j = nearest_index_upto(c, k - 1);
        if dist2(c, palette(k - 1)) < dist2(c, palette(j)) {
            k - 1
        } else {
            j
        }
    }
}

/// The approved color nearest to `c`; on a tie, the one that comes first.
pub open spec fn nearest_approved(c: Rgb) -> Rgb {
    palette(nearest_index_upto(c, 10))
}

proof fn lemma_sq_bound(d: int)
    requires
        -255 <= d <= 255,
    ensures
        0 <= d * d <= 65025,
{
    assert(0 <= d * d <= 65025) by (nonlinear_arith)
        requires
            -255 <= d <= 255,
    ;
}

proof fn lemma_dist2_bounds(a: Rgb, b: Rgb)
    ensures
        0 <= dist2(a, b) <= 195075,
{
    lemma_sq_bound(a.0 - b.0);
    lemma_sq_bound(a.1 - b.1);
    lemma_sq_bound(a.2 - b.2);
}

/// Squared distance between `(r1, g1, b1)` and `(r2, g2, b2)`.
///
/// Nearest-color search only compares distances, and the square root is
/// monotone, so squared distances order colors exactly as distances do.
pub fn color_distance_squared(r1: u8, g1: u8, b1: u8, r2: u8, g2: u8, b2: u8) -> (d: u32)
    ensures
        d == dist2((r1, g1, b1), (r2, g2, b2)),
{
    proof {
        lemma_dist2_bounds((r1, g1, b1), (r2, g2, b2));
        lemma_sq_bound(r1 - r2);
        lemma_sq_bound(g1 - g2);
        lemma_sq_bound(b1 - b2);
    }
    let dr: i32 = r1 as i32 - r2 as i32;
    let dg: i32 = g1 as i32 - g2 as i32;
    let db: i32 = b1 as i32 - b2 as i32;
    let s: i32 = dr * dr + dg * dg + db * db;
    s as u32
}

/// The approved color nearest to `(r, g, b)`.
pub fn find_closest_approved_color(r: u8, g: u8, b: u8) -> (res: Rgb)
    ensures
        res == nearest_approved((r, g, b)),
        is_approved(res),
{
    let ghost c: Rgb = (r, g, b);
    let first = approved_color(0);
    let mut closest: Rgb = first;
    let mut best: usize = 0;
    let mut min_dist: u32 = color_distance_squared(r, g, b, first.0, first.1, first.2);
    let mut i: usize = 1;
    while i < APPROVED_COLOR_COUNT
        invariant
            1 <= i <= 10,
            c == (r, g, b),
            best < 10,
            best == nearest_index_upto(c, i as int),
            closest == palette(best as int),
            min_dist == dist2(c, closest),
        decreases 10 - i,
    {
        let cand = approved_color(i);
        let d = color_distance_squared(r, g, b, cand.0, cand.1, cand.2);
        proof {
            assert(nearest_index_upto(c, i + 1) == if dist2(c, palette(i as int)) < dist2(
                c,
                palette(best as int),
            ) {
                i as int
            } else {
                best as int
            });
        }
        if d < min_dist {
            min_dist = d;
            closest = cand;
            best = i;
        }
        i = i + 1;
    }
    closest
}

proof fn lemma_nearest_upto_is_nearest(c: Rgb, k: int)
    requires
        1 <= k <= 10,
    ensures
        0 <= nearest_index_upto(c, k) < k,
        forall|i: int|
            0 <= i < k ==> dist2(c, palette(nearest_index_upto(c, k))) <= dist2(
                c,
                #[trigger] palette(i),
            ),
    decreases k,
{
    if k > 1 {
        lemma_nearest_upto_is_nearest(c, k - 1);
    }
}

/// Quantization picks a nearest approved color: no approved color is
/// strictly closer to `c` than the one chosen.
pub proof fn lemma_nearest_approved_is_nearest(c: Rgb, i: int)
    requires
        0 <= i < 10,
    ensures
        dist2(c, nearest_approved(c)) <= dist2(c, palette(i)),
        is_approved(nearest_approved(c)),
{
    lemma_nearest_upto_is_nearest(c, 10);
    let j = nearest_index_upto(c, 10);
    assert(palette(j) == nearest_approved(c));
}

proof fn lemma_dist2_zero(a: Rgb, b: Rgb)
    requires
        dist2(a, b) <= 0,
    ensures
        a == b,
{
    let x = a.0 - b.0;
    let y = a.1 - b.1;
    let z = a.2 - b.2;
    assert(x * x >= 0 && y * y >= 0 && z * z >= 0) by (nonlinear_arith);
    assert(x * x == 0 ==> x == 0) by (nonlinear_arith);
    assert(y * y == 0 ==> y == 0) by (nonlinear_arith);
    assert(z * z == 0 ==> z == 0) by (nonlinear_arith);
}

/// Approved colors are left as they are by quantization.
pub proof fn lemma_approved_is_fixed(c: Rgb)
    requires
        is_approved(c),
    ensures
        nearest_approved(c) == c,
{
    let i = choose|i: int| 0 <= i < 10 && #[trigger] palette(i) == c;
    lemma_nearest_approved_is_nearest(c, i);
    assert(dist2(c, c) == 0);
    lemma_dist2_zero(c, nearest_approved(c));
}

} // verus!
