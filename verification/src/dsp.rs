//! Sample-buffer processing: channel mixdown, linear-interpolation
//! resampling and RMS level metering.
//!
//! Samples are 16-bit signed PCM values. Levels are reported on a
//! fixed-point scale where [`LEVEL_FULL`] stands for full scale (1.0).

use vstd::prelude::*;
use vstd::arithmetic::div_mod::{
    lemma_div_is_ordered, lemma_div_by_multiple, lemma_div_pos_is_pos,
    lemma_fundamental_div_mod, lemma_fundamental_div_mod_converse,
    lemma_mod_bound, lemma_multiply_divide_lt,
};
use vstd::arithmetic::mul::{
    lemma_mul_inequality, lemma_mul_is_distributive_sub,
    lemma_mul_is_distributive_add_other_way, lemma_mul_upper_bound,
    lemma_mul_is_commutative,
};

verus! {

/// Fixed-point value standing for a level of 1.0.
pub const LEVEL_FULL: u32 = 32768;

/// Number of trailing samples the level meter looks at.
pub const LEVEL_WINDOW: usize = 1000;

/// Largest square of a sample value (`(-32768)^2`).
pub const SAMPLE_SQ_MAX: i64 = 1073741824;

/// Integer division that rounds toward zero, as the `/` operator of the
/// machine does on signed integers.
pub open spec fn div_trunc(a: int, b: int) -> int {
    if a >= 0 {
        a / b
    } else {
        -((-a) / b)
    }
}

/// `div_trunc` stays within a bound that holds of the numerator scaled
/// by the divisor.
pub proof fn lemma_div_trunc_bounds(num: int, to: int, lo: int, hi: int)
    requires
        to >= 1,
        lo <= 0 <= hi,
        lo * to <= num <= hi * to,
    ensures
        lo <= div_trunc(num, to) <= hi,
{
    if num >= 0 {
        lemma_div_pos_is_pos(num, to);
        lemma_div_is_ordered(num, hi * to, to);
        lemma_div_by_multiple(hi, to);
    } else {
        lemma_div_pos_is_pos(-num, to);
        vstd::arithmetic::mul::lemma_mul_unary_negation(lo, to);
        assert(-num <= (-lo) * to);
        lemma_div_is_ordered(-num, (-lo) * to, to);
        lemma_div_by_multiple(-lo, to);
    }
}

/// Sum of a sequence of samples.
pub open spec fn sample_sum(s: Seq<i16>) -> int
    decreases s.len(),
{
    if s.len() == 0 {
        0
    } else {
        sample_sum(s.drop_last()) + s.last()
    }
}

/// Sum of the squares of a sequence of samples.
pub open spec fn square_sum(s: Seq<i16>) -> int
    decreases s.len(),
{
    if s.len() == 0 {
        0
    } else {
        square_sum(s.drop_last()) + s.last() * s.last()
    }
}

/// The mean of frame `i` of `s`, frames being `ch` samples wide.
pub open spec fn frame_mean(s: Seq<i16>, ch: int, i: int) -> int {
    div_trunc(sample_sum(s.subrange(i * ch, i * ch + ch)), ch)
}

proof fn lemma_sample_sum_bounds(s: Seq<i16>)
    ensures
        -32768 * s.len() <= sample_sum(s) <= 32767 * s.len(),
    decreases s.len(),
{
    if s.len() > 0 {
        lemma_sample_sum_bounds(s.drop_last());
    }
}

proof fn lemma_sample_sum_push(s: Seq<i16>, x: i16)
    ensures
        sample_sum(s.push(x)) == sample_sum(s) + x,
{
    assert(s.push(x).drop_last() =~= s);
}

proof fn lemma_square_sum_push(s: Seq<i16>, x: i16)
    ensures
        square_sum(s.push(x)) == square_sum(s) + x * x,
{
    assert(s.push(x).drop_last() =~= s);
}

/// Truncating division of a sum by a positive divisor.
fn div_sum(a: i64, b: u32) -> (r: i64)
    requires
        b > 0,
        a > i64::MIN,
    ensures
        r == div_trunc(a as int, b as int),
{
    if a >= 0 {
        let q = (a as u64) / (b as u64);
        proof {
            assert(a as int / b as int <= a as int / 1int) by {
                vstd::arithmetic::div_mod::lemma_div_is_ordered_by_denominator(
                    a as int,
                    1,
                    b as int,
                );
            }
        }
        q as i64
    } else {
        let neg = -a;
        let q = (neg as u64) / (b as u64);
        proof {
            assert(neg as int / b as int <= neg as int / 1int) by {
                vstd::arithmetic::div_mod::lemma_div_is_ordered_by_denominator(
                    neg as int,
                    1,
                    b as int,
                );
            }
        }
        -(q as i64)
    }
}

/// With a single channel each frame mean is the sample itself.
proof fn lemma_frame_mean_single(s: Seq<i16>, i: int)
    requires
        0 <= i < s.len(),
    ensures
        frame_mean(s, 1, i) == s[i],
{
    let f = s.subrange(i, i + 1);
    assert(f.len() == 1);
    assert(f.drop_last() =~= Seq::<i16>::empty());
    assert(sample_sum(f.drop_last()) == 0);
    assert(f.last() == s[i]);
    assert(sample_sum(f) == sample_sum(f.drop_last()) + f.last());
    assert(sample_sum(f) == s[i]);
    if s[i] >= 0 {
        assert(div_trunc(s[i] as int, 1) == s[i]);
    } else {
        assert(div_trunc(s[i] as int, 1) == s[i]);
    }
}

/// Reduces interleaved multi-channel audio to mono: each group of
/// `channels` consecutive samples becomes their arithmetic mean, and a
/// trailing group shorter than `channels` is dropped. With one channel
/// the input comes back unchanged.
pub fn mixdown(samples: &Vec<i16>, channels: u32) -> (r: Vec<i16>)
    requires
        channels >= 1,
    ensures
        r@.len() == samples@.len() as int / channels as int,
        forall|i: int|
            0 <= i < r@.len() ==> r@[i] == frame_mean(samples@, channels as int, i),
        channels == 1 ==> r@ == samples@,
{
    let ch = channels as usize;
    let len = samples.len();
    let mut out: Vec<i16> = Vec::new();
    let mut base: usize = 0;
    proof {
        assert(out@.len() * ch as int == 0) by (nonlinear_arith)
            requires
                out@.len() == 0,
        ;
    }
    while ch <= len && base <= len - ch
        invariant
            ch == channels,
            ch >= 1,
            len == samples@.len(),
            base <= len,
            base == out@.len() * ch,
            forall|k: int|
                0 <= k < out@.len() ==> out@[k] == frame_mean(samples@, ch as int, k),
        decreases len - base,
    {
        let ghost q = out@.len() as int;
        let mut sum: i64 = 0;
        let mut j: usize = 0;
        while j < ch
            invariant
                0 <= j <= ch,
                ch <= u32::MAX,
                len == samples@.len(),
                base + ch <= samples@.len(),
                sum == sample_sum(samples@.subrange(base as int, base + j)),
                -32768 * j <= sum <= 32767 * j,
            decreases ch - j,
        {
            proof {
                assert(samples@.subrange(base as int, base + j + 1) =~= samples@.subrange(
                    base as int,
                    base + j,
                ).push(samples@[base + j]));
                lemma_sample_sum_push(
                    samples@.subrange(base as int, base + j),
                    samples@[base + j],
                );
            }
            sum = sum + samples[base + j] as i64;
            j = j + 1;
        }
        proof {
            lemma_div_trunc_bounds(sum as int, ch as int, -32768, 32767);
        }
        let mean = div_sum(sum, channels);
        proof {
            assert(q * ch == base);
            assert(samples@.subrange(q * ch, q * ch + ch) =~= samples@.subrange(
                base as int,
                base + j,
            ));
            lemma_mul_is_distributive_add_other_way(ch as int, q, 1);
            assert((q + 1) * ch == base + ch);
        }
        out.push(mean as i16);
        base = base + ch;
    }
    proof {
        let q = out@.len() as int;
        let r = len - base;
        assert(0 <= r < ch);
        lemma_mul_is_commutative(q, ch as int);
        lemma_fundamental_div_mod_converse(len as int, ch as int, q, r);
        if channels == 1 {
            assert(out@.len() == samples@.len());
            assert forall|k: int| 0 <= k < out@.len() implies out@[k] == samples@[k] by {
                lemma_frame_mean_single(samples@, k);
            }
            assert(out@ =~= samples@);
        }
    }
    out
}

/// Length of the output of [`resample`]: `floor(len / (from / to))`.
pub open spec fn resample_len(len: int, from: int, to: int) -> int {
    len * to / from
}

/// The sample [`resample`] produces at output index `i`: the source is
/// read at rational position `i * from / to`, interpolating linearly
/// between its two integer neighbours (the upper one clamped to the
/// last valid index).
pub open spec fn lerp_sample(s: Seq<i16>, from: int, to: int, i: int) -> int {
    let pos = i * from;
    let lo = pos / to;
    let rem = pos % to;
    let hi = if lo + 1 < s.len() {
        lo + 1
    } else {
        s.len() - 1
    };
    div_trunc(s[lo] * (to - rem) + s[hi] * rem, to)
}

/// The interpolation numerator stays within one sample bound scaled by
/// the output rate.
proof fn lemma_lerp_num_bounds(a: int, b: int, rem: int, to: int)
    requires
        -32768 <= a <= 32767,
        -32768 <= b <= 32767,
        0 <= rem <= to,
    ensures
        -32768 * to <= a * (to - rem) + b * rem <= 32767 * to,
{
    lemma_mul_inequality(a, 32767, to - rem);
    lemma_mul_inequality(b, 32767, rem);
    lemma_mul_inequality(-32768, a, to - rem);
    lemma_mul_inequality(-32768, b, rem);
    lemma_mul_is_distributive_sub(32767, to, rem);
    lemma_mul_is_distributive_sub(-32768, to, rem);
}

/// Linear-interpolation resampler from `from_rate` Hz to `to_rate` Hz.
/// Equal rates return the input unchanged; otherwise the output has
/// `floor(len / (from/to))` samples, output index `i` reading source
/// position `i * from / to` with linear interpolation of the two
/// neighbouring samples.
pub fn resample(samples: &Vec<i16>, from_rate: u32, to_rate: u32) -> (r: Vec<i16>)
    requires
        from_rate > 0,
        to_rate > 0,
        resample_len(samples@.len() as int, from_rate as int, to_rate as int) <= usize::MAX,
    ensures
        from_rate == to_rate ==> r@ == samples@,
        from_rate != to_rate ==> r@.len() == resample_len(
            samples@.len() as int,
            from_rate as int,
            to_rate as int,
        ),
        from_rate != to_rate ==> forall|i: int|
            0 <= i < r@.len() ==> r@[i] == lerp_sample(
                samples@,
                from_rate as int,
                to_rate as int,
                i,
            ),
{
    if from_rate == to_rate {
        let r = samples.clone();
        proof {
            assert(r@ =~= samples@);
        }
        return r;
    }
    let from = from_rate as u128;
    let to = to_rate as u128;
    let len = samples.len() as u128;
    proof {
        lemma_mul_upper_bound(len as int, u64::MAX as int, to as int, u32::MAX as int);
    }
    let out_len_wide = len * to / from;
    let out_len = out_len_wide as usize;
    proof {
        lemma_fundamental_div_mod((len * to) as int, from as int);
        lemma_mod_bound((len * to) as int, from as int);
        lemma_mul_is_commutative(from as int, out_len as int);
        assert(out_len * from <= len * to);
    }
    let mut out: Vec<i16> = Vec::new();
    while out.len() < out_len
        invariant
            from == from_rate,
            to == to_rate,
            from > 0,
            to > 0,
            from != to,
            len == samples@.len(),
            len <= usize::MAX,
            out_len == resample_len(len as int, from as int, to as int),
            out_len * from <= len * to,
            len * to <= u128::MAX,
            out@.len() <= out_len,
            forall|k: int|
                0 <= k < out@.len() ==> out@[k] == lerp_sample(samples@, from as int, to as int, k),
        decreases out_len - out@.len(),
    {
        let i = out.len();
        proof {
            lemma_mul_is_distributive_add_other_way(from as int, i as int, 1);
            lemma_mul_inequality(i as int + 1, out_len as int, from as int);
            assert((i as int) * (from as int) + from as int <= (out_len as int) * (from as int));
            assert((i as int) * (from as int) < len * to);
        }
        let pos = (i as u128) * from;
        proof {
            lemma_mul_is_commutative(len as int, to as int);
            lemma_multiply_divide_lt(pos as int, to as int, len as int);
            lemma_mod_bound(pos as int, to as int);
        }
        let lo_wide = pos / to;
        let rem = (pos % to) as u64;
        let lo = lo_wide as usize;
        let hi = if lo + 1 < samples.len() {
            lo + 1
        } else {
            samples.len() - 1
        };
        let a = samples[lo] as i64;
        let b = samples[hi] as i64;
        let diff = (to_rate as i64) - (rem as i64);
        proof {
            lemma_lerp_num_bounds(a as int, b as int, rem as int, to as int);
            assert(-140737488355328 <= (a as int) * (diff as int) <= 140737488355328)
                by (nonlinear_arith)
                requires
                    -32768 <= a <= 32767,
                    0 <= diff <= 4294967295,
            ;
            assert(-140737488355328 <= (b as int) * (rem as int) <= 140737488355328)
                by (nonlinear_arith)
                requires
                    -32768 <= b <= 32767,
                    0 <= rem <= 4294967295,
            ;
        }
        let num = a * diff + b * (rem as i64);
        let v = div_sum(num, to_rate);
        proof {
            lemma_div_trunc_bounds(num as int, to as int, -32768, 32767);
            assert(v == lerp_sample(samples@, from as int, to as int, i as int));
        }
        out.push(v as i16);
    }
    out
}

/// `r` is the integer square root of `x`.
pub open spec fn is_isqrt(r: int, x: int) -> bool {
    0 <= r && r * r <= x < (r + 1) * (r + 1)
}

pub proof fn lemma_isqrt_unique(r1: int, r2: int, x: int)
    requires
        is_isqrt(r1, x),
        is_isqrt(r2, x),
    ensures
        r1 == r2,
{
    if r1 < r2 {
        lemma_mul_inequality(r1 + 1, r2, r2);
        lemma_mul_inequality(r1 + 1, r1 + 1, r1 + 1);
        assert((r1 + 1) * (r1 + 1) <= r2 * r2) by (nonlinear_arith)
            requires
                0 <= r1,
                r1 + 1 <= r2,
        ;
    }
    if r2 < r1 {
        assert((r2 + 1) * (r2 + 1) <= r1 * r1) by (nonlinear_arith)
            requires
                0 <= r2,
                r2 + 1 <= r1,
        ;
    }
}

/// Integer square root by binary search.
fn isqrt(x: u64) -> (r: u64)
    ensures
        is_isqrt(r as int, x as int),
{
    let mut lo: u64 = 0;
    let mut hi: u64 = 4294967296;
    proof {
        assert((hi as int) * (hi as int) > x as int) by (nonlinear_arith)
            requires
                hi == 4294967296,
                x <= u64::MAX,
        ;
    }
    while lo + 1 < hi
        invariant
            0 <= lo < hi <= 4294967296,
            (lo as int) * (lo as int) <= x as int,
            (hi as int) * (hi as int) > x as int,
        decreases hi - lo,
    {
        let mid = lo + (hi - lo) / 2;
        proof {
            assert((mid as int) * (mid as int) <= 4294967295int * 4294967295int)
                by (nonlinear_arith)
                requires
                    0 <= mid <= 4294967295,
            ;
        }
        let sq = mid * mid;
        if sq <= x {
            lo = mid;
        } else {
            hi = mid;
        }
    }
    lo
}

/// The level reported for a window whose mean square has integer
/// square root `root`: `min(10 * root, LEVEL_FULL)`.
pub open spec fn rms_spec(root: int) -> int {
    if 10 * root >= LEVEL_FULL {
        LEVEL_FULL as int
    } else {
        10 * root
    }
}

/// The window of samples the level meter reads: the last
/// `min(len, 1000)` entries of the buffer.
pub open spec fn level_window(s: Seq<i16>) -> Seq<i16> {
    if s.len() <= LEVEL_WINDOW {
        s
    } else {
        s.subrange(s.len() - LEVEL_WINDOW, s.len() as int)
    }
}

/// RMS level of the most recent samples: the square root of the mean
/// square over the window of the last `min(len, 1000)` samples, scaled
/// by 10 and clamped to full scale. An empty buffer reports 0.
pub fn rms_level(samples: &Vec<i16>) -> (r: u32)
    ensures
        samples@.len() == 0 ==> r == 0,
        samples@.len() > 0 ==> exists|root: int|
            is_isqrt(
                root,
                square_sum(level_window(samples@)) / level_window(samples@).len() as int,
            ) && r == rms_spec(root),
{
    let len = samples.len();
    let n = if len < LEVEL_WINDOW {
        len
    } else {
        LEVEL_WINDOW
    };
    if n == 0 {
        return 0;
    }
    let start = len - n;
    let ghost win = level_window(samples@);
    proof {
        assert(win =~= samples@.subrange(start as int, len as int));
    }
    let mut sum: i64 = 0;
    let mut j: usize = 0;
    while j < n
        invariant
            0 <= j <= n,
            n <= LEVEL_WINDOW,
            start + n == len,
            len == samples@.len(),
            win == samples@.subrange(start as int, len as int),
            win.len() == n,
            sum == square_sum(win.subrange(0, j as int)),
            0 <= sum <= j * SAMPLE_SQ_MAX,
        decreases n - j,
    {
        let s = samples[start + j] as i64;
        proof {
            assert(win.subrange(0, j + 1) =~= win.subrange(0, j as int).push(win[j as int]));
            lemma_square_sum_push(win.subrange(0, j as int), win[j as int]);
            assert(win[j as int] == samples@[start + j]);
            assert(0 <= s * s <= SAMPLE_SQ_MAX) by (nonlinear_arith)
                requires
                    -32768 <= s <= 32767,
            ;
            assert((j as int) * SAMPLE_SQ_MAX + SAMPLE_SQ_MAX == (j + 1) * SAMPLE_SQ_MAX)
                by (nonlinear_arith);
        }
        sum = sum + s * s;
        j = j + 1;
    }
    proof {
        assert(win.subrange(0, n as int) =~= win);
        assert(n * SAMPLE_SQ_MAX <= 1000 * SAMPLE_SQ_MAX) by (nonlinear_arith)
            requires
                n <= 1000,
        ;
    }
    let mean = (sum as u64) / (n as u64);
    let root = isqrt(mean);
    proof {
        assert(square_sum(win) / (win.len() as int) == mean as int);
        lemma_div_is_ordered(sum as int, 1000 * SAMPLE_SQ_MAX, n as int);
        lemma_div_is_ordered_by_den(sum as int, n as int);
        assert(root <= 2000000) by (nonlinear_arith)
            requires
                (root as int) * (root as int) <= mean as int,
                mean <= 1073741824000,
                root >= 0,
        ;
    }
    let scaled = 10 * root;
    let level = if scaled >= LEVEL_FULL as u64 {
        LEVEL_FULL
    } else {
        scaled as u32
    };
    proof {
        assert(is_isqrt(
            root as int,
            square_sum(level_window(samples@)) / level_window(samples@).len() as int,
        ));
        assert(level == rms_spec(root as int));
    }
    level
}

/// Absolute value of a sample.
pub open spec fn abs_sample(a: i16) -> int {
    if a >= 0 {
        a as int
    } else {
        -(a as int)
    }
}

/// Scaling a value by `to` and dividing by `to` again gives it back,
/// under truncating division.
proof fn lemma_div_trunc_exact(c: int, to: int)
    requires
        to >= 1,
    ensures
        div_trunc(c * to, to) == c,
{
    if c >= 0 {
        lemma_div_by_multiple(c, to);
    } else {
        vstd::arithmetic::mul::lemma_mul_unary_negation(c, to);
        lemma_div_by_multiple(-c, to);
    }
}

/// Resampling a constant-value buffer yields that constant at every
/// output position: interpolation between equal neighbours is stable.
pub proof fn lemma_resample_constant(s: Seq<i16>, from: int, to: int, c: i16, i: int)
    requires
        from > 0,
        to > 0,
        s.len() > 0,
        forall|k: int| 0 <= k < s.len() ==> s[k] == c,
        0 <= i < resample_len(s.len() as int, from, to),
    ensures
        lerp_sample(s, from, to, i) == c,
{
    let len = s.len() as int;
    let pos = i * from;
    lemma_mul_is_commutative(i, from);
    vstd::arithmetic::mul::lemma_mul_strict_inequality(i, len * to / from, from);
    lemma_mul_is_commutative(len * to / from, from);
    lemma_fundamental_div_mod(len * to, from);
    lemma_mod_bound(len * to, from);
    assert(pos < len * to);
    lemma_mul_is_commutative(len, to);
    lemma_multiply_divide_lt(pos, to, len);
    vstd::arithmetic::mul::lemma_mul_nonnegative(i, from);
    lemma_mod_bound(pos, to);
    let lo = pos / to;
    let rem = pos % to;
    lemma_div_pos_is_pos(pos, to);
    let hi = if lo + 1 < s.len() {
        lo + 1
    } else {
        s.len() - 1
    };
    assert(s[lo] == c);
    assert(s[hi] == c);
    lemma_mul_is_distributive_sub(c as int, to, rem);
    assert((c as int) * (to - rem) + (c as int) * rem == (c as int) * to);
    lemma_div_trunc_exact(c as int, to);
}

proof fn lemma_square_sum_constant(s: Seq<i16>, a: i16)
    requires
        forall|k: int| 0 <= k < s.len() ==> s[k] == a,
    ensures
        square_sum(s) == s.len() * ((a as int) * (a as int)),
    decreases s.len(),
{
    if s.len() == 0 {
        assert(square_sum(s) == 0);
    } else {
        lemma_square_sum_constant(s.drop_last(), a);
        assert(s.last() == a);
        assert((s.len() - 1) * ((a as int) * (a as int)) + (a as int) * (a as int) == s.len() * (
        (a as int) * (a as int))) by (nonlinear_arith);
    }
}

/// The meter window of a constant buffer of amplitude `a` has mean
/// square exactly `a * a`, whose integer square root is `|a|`; with the
/// contract of [`rms_level`] the reported level is therefore
/// `min(10 * |a|, LEVEL_FULL)`, and an all-zero buffer reports 0.
pub proof fn lemma_rms_constant(s: Seq<i16>, a: i16)
    requires
        s.len() > 0,
        forall|k: int| 0 <= k < s.len() ==> s[k] == a,
    ensures
        is_isqrt(
            abs_sample(a),
            square_sum(level_window(s)) / level_window(s).len() as int,
        ),
        rms_spec(abs_sample(a)) == if 10 * abs_sample(a) >= LEVEL_FULL {
            LEVEL_FULL as int
        } else {
            10 * abs_sample(a)
        },
{
    let w = level_window(s);
    assert(w.len() > 0);
    assert(forall|k: int| 0 <= k < w.len() ==> w[k] == a);
    lemma_square_sum_constant(w, a);
    let sq = (a as int) * (a as int);
    assert(square_sum(w) == w.len() * sq);
    lemma_mul_is_commutative(w.len() as int, sq);
    assert(sq >= 0) by (nonlinear_arith)
        requires
            sq == (a as int) * (a as int),
    ;
    lemma_div_by_multiple(sq, w.len() as int);
    lemma_mul_is_commutative(sq, w.len() as int);
    assert(square_sum(w) / w.len() as int == sq);
    let r = abs_sample(a);
    assert(r * r == sq) by (nonlinear_arith)
        requires
            r == abs_sample(a),
            sq == (a as int) * (a as int),
            (r == a as int || r == -(a as int)),
    ;
    assert(sq < (r + 1) * (r + 1)) by (nonlinear_arith)
        requires
            r >= 0,
            r * r == sq,
    ;
}

/// Division by at least one does not grow a non-negative value.
proof fn lemma_div_is_ordered_by_den(x: int, d: int)
    requires
        0 <= x,
        1 <= d,
    ensures
        x / d <= x,
{
    vstd::arithmetic::div_mod::lemma_div_is_ordered_by_denominator(x, 1, d);
}

} // verus!
