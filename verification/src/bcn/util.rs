//! Shared quantization helpers: endpoint estimation by least-squares
//! regression, fixed-point palette interpolation and scalar palette mapping.

use vstd::prelude::*;

verus! {

/// Absolute difference of two bytes.
pub open spec fn spec_absdiff(a: u8, b: u8) -> u8 {
    if a >= b {
        (a - b) as u8
    } else {
        (b - a) as u8
    }
}

pub fn absdiff(a: u8, b: u8) -> (r: u8)
    ensures
        r == spec_absdiff(a, b),
{
    if a >= b {
        a - b
    } else {
        b - a
    }
}

/// Fixed-point linear interpolation between `a` and `b`: step `i` of `max`.
pub open spec fn spec_pol(a: u8, b: u8, i: u8, max: u8) -> int
    recommends
        i <= max,
        1 <= max,
{
    ((max - i) * a + i * b) / (max as int)
}

/// The interpolated value always stays inside the byte range.
pub proof fn lemma_pol_in_range(a: u8, b: u8, i: u8, max: u8)
    requires
        i <= max,
        1 <= max,
    ensures
        0 <= spec_pol(a, b, i, max) <= 255,
{
    let num = (max - i) * a + i * b;
    assert(0 <= num <= max * 255) by (nonlinear_arith)
        requires
            num == (max - i) * a + i * b,
            i <= max,
            a <= 255,
            b <= 255,
    ;
    assert(num / (max as int) >= 0) by {
        vstd::arithmetic::div_mod::lemma_div_pos_is_pos(num, max as int);
    }
    assert((max * 255) / (max as int) == 255) by {
        vstd::arithmetic::div_mod::lemma_div_multiples_vanish(255, max as int);
    }
    assert(num / (max as int) <= (max * 255) / (max as int)) by {
        vstd::arithmetic::div_mod::lemma_div_is_ordered(num, max * 255, max as int);
    }
}

/// Interpolation entry `i` of a palette running from `a` at step 0 to `b` at
/// step `max`, computed in 16-bit fixed point exactly as specified.
pub fn pol(a: u8, b: u8, i: u8, max: u8) -> (r: u8)
    requires
        i <= max,
        1 <= max,
    ensures
        r == spec_pol(a, b, i, max),
{
    proof {
        lemma_pol_in_range(a, b, i, max);
        assert(0 <= (max - i) * a <= 65025 && 0 <= i * b <= 65025 && (max - i) * a + i * b <= 255
            * max) by (nonlinear_arith)
            requires
                i <= max,
                a <= 255,
                b <= 255,
                max <= 255,
        ;
    }
    let num: u16 = (max - i) as u16 * a as u16 + i as u16 * b as u16;
    (num / max as u16) as u8
}

/// The interpolation is monotone in its step: with `a <= b`, later entries
/// never fall below earlier ones (and with endpoints swapped they never rise).
pub proof fn lemma_pol_monotonic(a: u8, b: u8, i: u8, j: u8, max: u8)
    requires
        a <= b,
        i <= j <= max,
        1 <= max,
    ensures
        spec_pol(a, b, i, max) <= spec_pol(a, b, j, max),
{
    let ni = (max - i) * a + i * b;
    let nj = (max - j) * a + j * b;
    assert(ni <= nj) by (nonlinear_arith)
        requires
            a <= b,
            i <= j <= max,
            ni == (max - i) * a + i * b,
            nj == (max - j) * a + j * b,
    ;
    vstd::arithmetic::div_mod::lemma_div_is_ordered(ni, nj, max as int);
}

/// The interpolation hits the endpoints exactly: entry 0 is `a`, entry `max`
/// is `b`.
pub proof fn lemma_pol_endpoints(a: u8, b: u8, max: u8)
    requires
        1 <= max,
    ensures
        spec_pol(a, b, 0, max) == a,
        spec_pol(a, b, max, max) == b,
{
    assert(max * a + 0 * b == a * max) by (nonlinear_arith);
    assert((max - max) * a + max * b == b * max) by (nonlinear_arith);
    vstd::arithmetic::div_mod::lemma_div_multiples_vanish(a as int, max as int);
    vstd::arithmetic::div_mod::lemma_div_multiples_vanish(b as int, max as int);
}

/// A block's distinct sample values below `bound`, in increasing order.
pub open spec fn distinct_upto(s: Seq<u8>, bound: int) -> Seq<u8>
    decreases bound,
{
    if bound <= 0 {
        Seq::empty()
    } else {
        distinct_upto(s, bound - 1) + if s.contains((bound - 1) as u8) {
            seq![(bound - 1) as u8]
        } else {
            Seq::empty()
        }
    }
}

/// A block's distinct sample values, sorted ascending: the cluster the
/// regression line is fitted through.
pub open spec fn distinct_sorted(s: Seq<u8>) -> Seq<u8> {
    distinct_upto(s, 256)
}

pub proof fn lemma_distinct_upto_len(s: Seq<u8>, bound: int)
    requires
        bound >= 0,
    ensures
        distinct_upto(s, bound).len() <= bound,
    decreases bound,
{
    if bound > 0 {
        lemma_distinct_upto_len(s, bound - 1);
    }
}

pub proof fn lemma_distinct_upto_contains(s: Seq<u8>, bound: int, v: u8)
    requires
        s.contains(v),
        v < bound,
    ensures
        distinct_upto(s, bound).contains(v),
    decreases bound,
{
    if v == bound - 1 {
        let d = distinct_upto(s, bound);
        assert(d[d.len() - 1] == v);
    } else {
        lemma_distinct_upto_contains(s, bound - 1, v);
        let d = distinct_upto(s, bound - 1);
        let i = choose|i: int| 0 <= i < d.len() && d[i] == v;
        assert(distinct_upto(s, bound)[i] == v);
    }
}

/// A non-empty block always has at least one distinct value.
pub proof fn lemma_distinct_nonempty(s: Seq<u8>)
    requires
        s.len() >= 1,
    ensures
        distinct_sorted(s).len() >= 1,
{
    assert(s.contains(s[0]));
    lemma_distinct_upto_contains(s, 256, s[0]);
}

/// When every sample equals `v`, the distinct list is exactly `[v]`.
pub proof fn lemma_distinct_upto_constant(s: Seq<u8>, bound: int, v: u8)
    requires
        s.len() >= 1,
        forall|k: int| 0 <= k < s.len() ==> s[k] == v,
        0 <= bound <= 256,
    ensures
        distinct_upto(s, bound) == if v < bound {
            seq![v]
        } else {
            Seq::<u8>::empty()
        },
    decreases bound,
{
    if bound > 0 {
        lemma_distinct_upto_constant(s, bound - 1, v);
        assert forall|w: u8| s.contains(w) implies w == v by {}
        if v == bound - 1 {
            assert(s.contains(v)) by {
                assert(s[0] == v);
            }
            assert(distinct_upto(s, bound) =~= seq![v]);
        } else {
            assert(!s.contains((bound - 1) as u8));
            assert(distinct_upto(s, bound) =~= distinct_upto(s, bound - 1));
        }
    }
}

pub proof fn lemma_distinct_constant(s: Seq<u8>, v: u8)
    requires
        s.len() >= 1,
        forall|k: int| 0 <= k < s.len() ==> s[k] == v,
    ensures
        distinct_sorted(s) == seq![v],
{
    lemma_distinct_upto_constant(s, 256, v);
}

/// The sorted distinct values of a block, computed with a presence table
/// over the byte range.
pub fn distinct_values(values: &[u8]) -> (r: Vec<u8>)
    ensures
        r@ == distinct_sorted(values@),
{
    let mut present: Vec<bool> = vec![false; 256];
    let n = values.len();
    for i in 0..n
        invariant
            n == values@.len(),
            present@.len() == 256,
            forall|j: int|
                0 <= j < 256 ==> (present@[j] <==> exists|k: int|
                    0 <= k < i && values@[k] == j),
    {
        present.set(values[i] as usize, true);
    }
    assert(forall|j: int| 0 <= j < 256 ==> (present@[j] <==> values@.contains(j as u8)));
    let mut out: Vec<u8> = Vec::new();
    for v in 0..256usize
        invariant
            present@.len() == 256,
            forall|j: int| 0 <= j < 256 ==> (present@[j] <==> values@.contains(j as u8)),
            out@ == distinct_upto(values@, v as int),
    {
        if present[v] {
            out.push(v as u8);
            assert(out@ =~= distinct_upto(values@, v + 1));
        } else {
            assert(out@ =~= distinct_upto(values@, v + 1));
        }
    }
    out
}

/// Sum of the sample indices 0, 1, ..., n-1.
pub open spec fn sum_x(n: int) -> int
    decreases n,
{
    if n <= 0 {
        0
    } else {
        sum_x(n - 1) + (n - 1)
    }
}

/// Sum of the squared sample indices.
pub open spec fn sum_xx(n: int) -> int
    decreases n,
{
    if n <= 0 {
        0
    } else {
        sum_xx(n - 1) + (n - 1) * (n - 1)
    }
}

/// Sum of the sample values.
pub open spec fn sum_y(ys: Seq<u8>) -> int
    decreases ys.len(),
{
    if ys.len() == 0 {
        0
    } else {
        sum_y(ys.drop_last()) + ys.last()
    }
}

/// Sum of index-value products.
pub open spec fn sum_xy(ys: Seq<u8>) -> int
    decreases ys.len(),
{
    if ys.len() == 0 {
        0
    } else {
        sum_xy(ys.drop_last()) + (ys.len() - 1) * ys.last()
    }
}

/// Denominator of the least-squares slope and intercept over indices 0..n-1.
pub open spec fn ols_den(n: int) -> int {
    n * sum_xx(n) - sum_x(n) * sum_x(n)
}

pub proof fn lemma_sum_x_closed(n: int)
    requires
        n >= 0,
    ensures
        2 * sum_x(n) == n * (n - 1),
    decreases n,
{
    if n == 0 {
        assert(2 * sum_x(0) == 0 * (0 - 1)) by (nonlinear_arith);
    } else {
        lemma_sum_x_closed(n - 1);
        assert(2 * sum_x(n) == n * (n - 1)) by (nonlinear_arith)
            requires
                2 * sum_x(n - 1) == (n - 1) * (n - 2),
                sum_x(n) == sum_x(n - 1) + (n - 1),
        ;
    }
}

pub proof fn lemma_sum_xx_closed(n: int)
    requires
        n >= 0,
    ensures
        6 * sum_xx(n) == n * (n - 1) * (2 * n - 1),
    decreases n,
{
    if n == 0 {
        assert(6 * sum_xx(0) == 0 * (0 - 1) * (2 * 0 - 1)) by (nonlinear_arith);
    } else {
        lemma_sum_xx_closed(n - 1);
        assert(6 * sum_xx(n) == n * (n - 1) * (2 * n - 1)) by (nonlinear_arith)
            requires
                6 * sum_xx(n - 1) == (n - 1) * (n - 2) * (2 * (n - 1) - 1),
                sum_xx(n) == sum_xx(n - 1) + (n - 1) * (n - 1),
        ;
    }
}

/// With two or more distinct sample indices, the regression denominator is
/// strictly positive, so the fitted line is well defined.
pub proof fn lemma_ols_den_pos(n: int)
    requires
        n >= 2,
    ensures
        ols_den(n) > 0,
{
    lemma_sum_x_closed(n);
    lemma_sum_xx_closed(n);
    assert(12 * (n * sum_xx(n) - sum_x(n) * sum_x(n)) == n * n * (n - 1) * (n + 1) && n * n * (n
        - 1) * (n + 1) > 0) by (nonlinear_arith)
        requires
            n >= 2,
            2 * sum_x(n) == n * (n - 1),
            6 * sum_xx(n) == n * (n - 1) * (2 * n - 1),
    ;
}

/// Numerator of the fitted line's value at sample index `x`, over the common
/// denominator `ols_den(n)`: slope numerator times `x` plus intercept
/// numerator.
pub open spec fn ols_num_at(ys: Seq<u8>, x: int) -> int {
    let n = ys.len() as int;
    (n * sum_xy(ys) - sum_x(n) * sum_y(ys)) * x + (sum_y(ys) * sum_xx(n) - sum_x(n) * sum_xy(ys))
}

/// The ordinary least-squares line through (index, value) pairs, evaluated at
/// sample index `x` and clamped to the byte range.
pub open spec fn ols_endpoint(ys: Seq<u8>, x: int) -> u8
    recommends
        ys.len() >= 2,
{
    let den = ols_den(ys.len() as int);
    let num = ols_num_at(ys, x);
    if num <= 0 {
        0
    } else if num >= 255 * den {
        255
    } else {
        (num / den) as u8
    }
}

/// The two endpoints fitted through a set of samples: the regression line
/// evaluated at the first and last index of the sorted distinct values, or
/// the single value twice when only one value occurs.
pub open spec fn spec_endpoints(vals: Seq<u8>) -> (u8, u8)
    recommends
        vals.len() >= 1,
{
    let d = distinct_sorted(vals);
    if d.len() == 1 {
        (d[0], d[0])
    } else {
        (ols_endpoint(d, 0), ols_endpoint(d, d.len() - 1))
    }
}

/// Clamped division for evaluating the fitted line: 0 below the byte range,
/// 255 above it, the exact quotient in between.
fn clamp_div(num: i64, den: i64) -> (r: u8)
    requires
        0 < den <= 0x1_0000_0000_0000,
    ensures
        r == if num <= 0 {
            0u8
        } else if num >= 255 * den {
            255u8
        } else {
            (num as int / den as int) as u8
        },
{
    if num <= 0 {
        0
    } else if num >= 255 * den {
        255
    } else {
        proof {
            vstd::arithmetic::div_mod::lemma_div_pos_is_pos(num as int, den as int);
            vstd::arithmetic::div_mod::lemma_multiply_divide_lt(num as int, 255, den as int);
        }
        (num as u64 / den as u64) as u8
    }
}

/// Fits a least-squares line through the block's sorted distinct values and
/// returns its two clamped extremities `(line(0), line(n - 1))`; a block of
/// one repeated value yields that value twice.
pub fn generate_palette(values: &[u8]) -> (r: (u8, u8))
    requires
        values@.len() >= 1,
    ensures
        r == spec_endpoints(values@),
{
    let d = distinct_values(values);
    proof {
        lemma_distinct_nonempty(values@);
        lemma_distinct_upto_len(values@, 256);
    }
    let n = d.len();
    if n == 1 {
        let v = d[0];
        return (v, v);
    }
    let mut sx: i64 = 0;
    let mut sxx: i64 = 0;
    let mut sy: i64 = 0;
    let mut sxy: i64 = 0;
    for i in 0..n
        invariant
            n == d@.len(),
            2 <= n <= 256,
            forall|k: int| 0 <= k < n ==> d@[k] <= 255,
            sx == sum_x(i as int),
            sxx == sum_xx(i as int),
            sy == sum_y(d@.take(i as int)),
            sxy == sum_xy(d@.take(i as int)),
            0 <= sx <= 255 * i,
            0 <= sxx <= 65025 * i,
            0 <= sy <= 255 * i,
            0 <= sxy <= 65025 * i,
    {
        proof {
            assert(d@.take(i + 1).drop_last() =~= d@.take(i as int));
            assert(d@.take(i + 1).last() == d@[i as int]);
            assert(0 <= (i as int) * (i as int) <= 65025 && 0 <= (i as int) * (d@[i as int] as int)
                <= 65025) by (nonlinear_arith)
                requires
                    0 <= i <= 255,
                    0 <= d@[i as int] <= 255,
            ;
        }
        let y = d[i] as i64;
        sx = sx + i as i64;
        sxx = sxx + (i as i64) * (i as i64);
        sy = sy + y;
        sxy = sxy + (i as i64) * y;
    }
    proof {
        assert(d@.take(n as int) =~= d@);
        lemma_ols_den_pos(n as int);
    }
    let ni = n as i64;
    proof {
        assert(0 <= ni * sxx <= 0x1_0000_0000_0000 && 0 <= sx * sx <= 0x1_0000_0000_0000 && 0 <= ni
            * sxy <= 0x1_0000_0000_0000 && 0 <= sx * sy <= 0x1_0000_0000_0000 && 0 <= sy * sxx
            <= 0x1000_0000_0000_0000 && 0 <= sx * sxy <= 0x1000_0000_0000_0000)
            by (nonlinear_arith)
            requires
                2 <= ni <= 256,
                0 <= sx <= 65280,
                0 <= sy <= 65280,
                0 <= sxx <= 16646400,
                0 <= sxy <= 16646400,
        ;
    }
    let den = ni * sxx - sx * sx;
    let m_num = ni * sxy - sx * sy;
    let c_num = sy * sxx - sx * sxy;
    proof {
        assert(den == ols_den(n as int));
        assert(c_num == ols_num_at(d@, 0));
        assert(ols_num_at(d@, n - 1) == m_num * (ni - 1) + c_num);
    }
    proof {
        assert(-0x1000_0000_0000_0000 <= m_num * (ni - 1) <= 0x1000_0000_0000_0000)
            by (nonlinear_arith)
            requires
                -0x1_0000_0000_0000 <= m_num <= 0x1_0000_0000_0000,
                2 <= ni <= 256,
        ;
    }
    let lo = clamp_div(c_num, den);
    let hi = clamp_div(m_num * (ni - 1) + c_num, den);
    (lo, hi)
}

/// Smaller of a palette's two endpoints.
pub open spec fn mc_min(pal: (u8, u8)) -> u8 {
    if pal.0 <= pal.1 {
        pal.0
    } else {
        pal.1
    }
}

/// Larger of a palette's two endpoints.
pub open spec fn mc_max(pal: (u8, u8)) -> u8 {
    if pal.0 <= pal.1 {
        pal.1
    } else {
        pal.0
    }
}

/// Distance between consecutive palette entries when the endpoint range is
/// cut into `colors` steps.
pub open spec fn mc_step(pal: (u8, u8), colors: int) -> int
    recommends
        colors >= 1,
{
    (mc_max(pal) - mc_min(pal)) / colors
}

/// Palette entry `idx` of the stepped palette.
pub open spec fn mc_entry(pal: (u8, u8), colors: int, idx: int) -> int {
    mc_min(pal) + mc_step(pal, colors) * idx
}

/// Every stepped palette entry stays between the endpoints.
pub proof fn lemma_mc_entry_in_range(pal: (u8, u8), colors: int, idx: int)
    requires
        colors >= 1,
        0 <= idx < colors,
    ensures
        mc_min(pal) <= mc_entry(pal, colors, idx) <= mc_max(pal),
{
    let range = (mc_max(pal) - mc_min(pal)) as int;
    let step = mc_step(pal, colors);
    vstd::arithmetic::div_mod::lemma_div_pos_is_pos(range, colors);
    vstd::arithmetic::div_mod::lemma_fundamental_div_mod(range, colors);
    vstd::arithmetic::div_mod::lemma_remainder_lower(range, colors);
    assert(0 <= step * idx <= range) by (nonlinear_arith)
        requires
            step >= 0,
            0 <= idx < colors,
            step * colors <= range,
    ;
}

/// First-wins nearest entry among the first `k` entries of the stepped
/// palette: index and entry value.
pub open spec fn mc_best(color: u8, pal: (u8, u8), colors: int, k: int) -> (int, int)
    decreases k,
{
    if k <= 1 {
        (0, mc_min(pal) as int)
    } else {
        let prev = mc_best(color, pal, colors, k - 1);
        let c = mc_entry(pal, colors, k - 1);
        if spec_iabs(color - c) < spec_iabs(color - prev.1) {
            (k - 1, c)
        } else {
            prev
        }
    }
}

/// Absolute value of an integer distance.
pub open spec fn spec_iabs(x: int) -> int {
    if x >= 0 {
        x
    } else {
        -x
    }
}

pub proof fn lemma_mc_best_in_range(color: u8, pal: (u8, u8), colors: int, k: int)
    requires
        1 <= k <= colors,
    ensures
        0 <= mc_best(color, pal, colors, k).0 < k,
        mc_best(color, pal, colors, k).1 == mc_entry(pal, colors, mc_best(color, pal, colors, k).0),
        0 <= mc_best(color, pal, colors, k).1 <= 255,
    decreases k,
{
    assert(mc_entry(pal, colors, 0) == mc_min(pal)) by {
        assert(mc_step(pal, colors) * 0 == 0) by (nonlinear_arith);
    }
    if k > 1 {
        lemma_mc_best_in_range(color, pal, colors, k - 1);
        lemma_mc_entry_in_range(pal, colors, k - 1);
    }
}

/// The chosen entry is a nearest one: no other stepped entry lies strictly
/// closer to the sample.
pub proof fn lemma_mc_best_nearest(color: u8, pal: (u8, u8), colors: int, k: int, idx: int)
    requires
        1 <= k <= colors,
        0 <= idx < k,
    ensures
        spec_iabs(color - mc_best(color, pal, colors, k).1) <= spec_iabs(
            color - mc_entry(pal, colors, idx),
        ),
    decreases k,
{
    assert(mc_entry(pal, colors, 0) == mc_min(pal)) by {
        assert(mc_step(pal, colors) * 0 == 0) by (nonlinear_arith);
    }
    if k > 1 && idx < k - 1 {
        lemma_mc_best_nearest(color, pal, colors, k - 1, idx);
    }
}

/// Maps a sample to its closest entry of the stepped palette between the two
/// endpoints, scanning in index order and keeping the first nearest entry.
/// Returns the entry's index and value.
pub fn map_color(color: u8, pal: (u8, u8), colors: usize) -> (r: (usize, u8))
    requires
        1 <= colors,
    ensures
        r.0 == mc_best(color, pal, colors as int, colors as int).0,
        r.1 == mc_best(color, pal, colors as int, colors as int).1,
        r.0 < colors,
{
    let minv = if pal.0 <= pal.1 {
        pal.0
    } else {
        pal.1
    };
    let maxv = if pal.0 <= pal.1 {
        pal.1
    } else {
        pal.0
    };
    let step = (maxv - minv) as usize / colors;
    let mut best_i: usize = 0;
    let mut best_c: u8 = minv;
    proof {
        assert(mc_step(pal, colors as int) * 0 == 0) by (nonlinear_arith);
    }
    for idx in 1..colors
        invariant
            1 <= colors,
            step == mc_step(pal, colors as int),
            minv == mc_min(pal),
            maxv == mc_max(pal),
            best_i == mc_best(color, pal, colors as int, idx as int).0,
            best_c == mc_best(color, pal, colors as int, idx as int).1,
            best_i < idx,
    {
        proof {
            lemma_mc_entry_in_range(pal, colors as int, idx as int);
            lemma_mc_best_in_range(color, pal, colors as int, idx as int);
        }
        let c = minv + (step * idx) as u8;
        if absdiff(color, c) < absdiff(color, best_c) {
            best_i = idx;
            best_c = c;
        }
    }
    (best_i, best_c)
}

/// Total distance between the samples and their nearest stepped palette
/// entries.
pub open spec fn err_sum(values: Seq<u8>, pal: (u8, u8), colors: int) -> int
    decreases values.len(),
{
    if values.len() == 0 {
        0
    } else {
        err_sum(values.drop_last(), pal, colors) + spec_iabs(
            values.last() - mc_best(values.last(), pal, colors, colors).1,
        )
    }
}

pub proof fn lemma_err_sum_nonneg(values: Seq<u8>, pal: (u8, u8), colors: int)
    ensures
        err_sum(values, pal, colors) >= 0,
    decreases values.len(),
{
    if values.len() > 0 {
        lemma_err_sum_nonneg(values.drop_last(), pal, colors);
    }
}

pub proof fn lemma_err_sum_prefix(values: Seq<u8>, pal: (u8, u8), colors: int, i: int)
    requires
        0 <= i <= values.len(),
    ensures
        err_sum(values.take(i), pal, colors) <= err_sum(values, pal, colors),
    decreases values.len() - i,
{
    if i == values.len() {
        assert(values.take(i) =~= values);
    } else {
        lemma_err_sum_prefix(values, pal, colors, i + 1);
        assert(values.take(i + 1).drop_last() =~= values.take(i));
    }
}

/// Average distance of a block's samples to the stepped palette between the
/// two endpoints, in integer division by the sample count.
pub fn avg_error(values: &[u8], pal: (u8, u8), colors: usize) -> (r: u8)
    requires
        1 <= colors,
        1 <= values@.len() <= 255,
        err_sum(values@, pal, colors as int) <= 255,
    ensures
        r == err_sum(values@, pal, colors as int) / (values@.len() as int),
{
    let n = values.len();
    let mut error: u8 = 0;
    for i in 0..n
        invariant
            1 <= colors,
            n == values@.len() <= 255,
            err_sum(values@, pal, colors as int) <= 255,
            error == err_sum(values@.take(i as int), pal, colors as int),
    {
        let (_, c) = map_color(values[i], pal, colors);
        proof {
            lemma_mc_best_in_range(values@[i as int], pal, colors as int, colors as int);
            lemma_err_sum_prefix(values@, pal, colors as int, i + 1);
            assert(values@.take(i + 1).drop_last() =~= values@.take(i as int));
            assert(values@.take(i + 1).last() == values@[i as int]);
            lemma_err_sum_nonneg(values@.take(i as int), pal, colors as int);
        }
        error = error + absdiff(values[i], c);
    }
    proof {
        assert(values@.take(n as int) =~= values@);
    }
    error / (n as u8)
}

/// The samples of one color channel of an interleaved RGB sequence.
pub open spec fn channel_seq(s: Seq<u8>, c: int) -> Seq<u8> {
    Seq::new((s.len() / 3) as nat, |i: int| s[3 * i + c])
}

fn channel(values: &[u8], c: usize) -> (r: Vec<u8>)
    requires
        c < 3,
        values@.len() % 3 == 0,
    ensures
        r@ == channel_seq(values@, c as int),
{
    let n3 = values.len() / 3;
    proof {
        vstd::arithmetic::div_mod::lemma_fundamental_div_mod(values@.len() as int, 3);
    }
    let mut out: Vec<u8> = Vec::new();
    for i in 0..n3
        invariant
            c < 3,
            n3 == values@.len() / 3,
            3 * n3 == values@.len(),
            values@.len() <= usize::MAX,
            out@.len() == i,
            forall|j: int| 0 <= j < i ==> out@[j] == values@[3 * j + c],
    {
        out.push(values[3 * i + c]);
    }
    proof {
        assert(out@ =~= channel_seq(values@, c as int));
    }
    out
}

/// Endpoint pair of a three-channel block: each channel fitted independently
/// by least squares, the per-channel low ends forming the first point and the
/// high ends the second.
pub fn generate_palette3d_rgb(values: &[u8]) -> (r: ([u8; 3], [u8; 3]))
    requires
        values@.len() % 3 == 0,
        values@.len() >= 3,
    ensures
        forall|c: int|
            0 <= c < 3 ==> r.0@[c] == spec_endpoints(channel_seq(values@, c)).0 && r.1@[c]
                == spec_endpoints(channel_seq(values@, c)).1,
{
    let red = channel(values, 0);
    let grn = channel(values, 1);
    let blu = channel(values, 2);
    proof {
        vstd::arithmetic::div_mod::lemma_fundamental_div_mod(values@.len() as int, 3);
    }
    let red = generate_palette(red.as_slice());
    let grn = generate_palette(grn.as_slice());
    let blu = generate_palette(blu.as_slice());
    ([red.0, grn.0, blu.0], [red.1, grn.1, blu.1])
}

} // verus!
