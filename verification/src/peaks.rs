//! Which hits count as capped, in terms of the ratios of damage to cap that keep coming back.

use vstd::prelude::*;

use crate::cap_detection::{
    at_or_over_cap, at_peak, bucket_count, bucket_multiplier, bucket_of, capped_among, is_recurring,
    learning_threshold, ratio, sample_count, BUCKET, TOLERANCE,
};
use crate::double::{
    lemma_nearest_close, lemma_nearest_error, lemma_nearest_same_ratio, nearest, round_half_up, ONE,
};

verus! {

/// Whether damage reaches a cap that means something.
pub open spec fn reaches(damage: i32, cap: i32) -> bool {
    0 < cap < 99_999_999 && damage >= cap
}

/// How many samples of damage and cap reach their cap.
pub open spec fn reaching(samples: Seq<(i32, i32)>) -> nat
    decreases samples.len(),
{
    if samples.len() == 0 {
        0
    } else {
        reaching(samples.drop_last()) + if reaches(samples.last().0, samples.last().1) {
            1nat
        } else {
            0nat
        }
    }
}

/// How many samples reach their cap with damage in the same ratio to it as `damage` to `cap`.
pub open spec fn in_ratio(samples: Seq<(i32, i32)>, damage: i32, cap: i32) -> nat
    decreases samples.len(),
{
    if samples.len() == 0 {
        0
    } else {
        let (d, c) = samples.last();
        in_ratio(samples.drop_last(), damage, cap) + if reaches(d, c) && d * cap == damage * c {
            1nat
        } else {
            0nat
        }
    }
}

/// The bucket of a sample stands for a multiplier that is close to the ratio of the sample.
proof fn lemma_multiplier_close(damage: i32, cap: i32)
    requires
        reaches(damage, cap),
    ensures
        ({
            let m = bucket_multiplier(bucket_of((damage, cap)));
            &&& m >= 0x10_0000_0000_0000
            &&& cap * m <= 2 * (damage * ONE)
            &&& 2 * (cap * m - damage * ONE) <= cap * BUCKET + 2560 * damage
            &&& 2 * (damage * ONE - cap * m) <= cap * BUCKET + 2560 * damage
        }),
{
    let d = damage as int;
    let c = cap as int;
    let x = d * ONE;
    let big: int = 0x20_0000_0000_0000;
    let half: int = 0x10_0000_0000_0000;
    assert(x >= c * ONE) by (nonlinear_arith)
        requires
            x == d * ONE,
            d >= c,
            ONE > 0,
    ;
    let r = ratio((damage, cap)) as int;
    assert(r == nearest(x as nat, c as nat));
    lemma_nearest_error(x as nat, c as nat);
    lemma_nearest_close(x as nat, c as nat);
    let q = (x as nat) / (c as nat);
    assert(q >= ONE) by (nonlinear_arith)
        requires
            q == x / c,
            x >= c * ONE,
            c > 0,
    ;
    assert(r >= 0x1000_0000_0000_0000);
    let ro = r * ONE;
    assert(ro >= 0x1000_0000_0000_0000 * 0x2000_0000_0000_0000) by (nonlinear_arith)
        requires
            ro == r * ONE,
            r >= 0x1000_0000_0000_0000,
            ONE == 0x2000_0000_0000_0000,
    ;
    let v = nearest(ro as nat, BUCKET as nat) as int;
    lemma_nearest_error(ro as nat, BUCKET as nat);
    let b = bucket_of((damage, cap)) as int;
    assert(b == round_half_up(v as nat, ONE as nat));
    assert(2 * (b * ONE - v) <= ONE && 2 * (v - b * ONE) <= ONE) by {
        let n = 2 * v + ONE;
        let k = 2 * ONE;
        assert(b == n / (k as int));
        assert(k == 0x4000_0000_0000_0000);
        assert(b * k <= n < b * k + k) by (nonlinear_arith)
            requires
                b == n / (k as int),
                k == 0x4000_0000_0000_0000,
        ;
        assert(b * k == 2 * (b * ONE)) by (nonlinear_arith)
            requires
                k == 2 * ONE,
        ;
    }
    assert(v >= 0x10_0000_0000_0000_0000) by (nonlinear_arith)
        requires
            (ro - v * BUCKET) * 0x20_0000_0000_0000 <= ro,
            ro >= 0x1000_0000_0000_0000 * 0x2000_0000_0000_0000,
            BUCKET == 4_611_686_018_427_388,
    ;
    assert(b >= 100) by (nonlinear_arith)
        requires
            2 * (v - b * ONE) <= ONE,
            v >= 0x10_0000_0000_0000_0000,
            ONE == 0x2000_0000_0000_0000,
    ;
    // c * b * BUCKET lies close to x.
    let cr_one = c * r * ONE;
    let cv_width = c * v * BUCKET;
    let cb_width = c * b * BUCKET;
    let c_width = c * BUCKET;
    let x_one = x * ONE;
    assert(big * (cv_width - cr_one) <= cr_one
        && big * (cr_one - cv_width) <= cr_one) by (nonlinear_arith)
        requires
            (v * BUCKET - ro) * big <= ro,
            (ro - v * BUCKET) * big <= ro,
            ro == r * ONE,
            cr_one == c * r * ONE,
            cv_width == c * v * BUCKET,
            c > 0,
    ;
    assert(2 * (cb_width * ONE - cv_width) <= c_width * ONE
        && 2 * (cv_width - cb_width * ONE) <= c_width * ONE) by (nonlinear_arith)
        requires
            2 * (b * ONE - v) <= ONE,
            2 * (v - b * ONE) <= ONE,
            cb_width == c * b * BUCKET,
            cv_width == c * v * BUCKET,
            c_width == c * BUCKET,
            c > 0,
            BUCKET > 0,
    ;
    assert(big * (cr_one - x_one) <= x_one && big * (x_one - cr_one) <= x_one) by (nonlinear_arith)
        requires
            (r * c - x) * big <= x,
            (x - r * c) * big <= x,
            cr_one == c * r * ONE,
            x_one == x * ONE,
            ONE > 0,
    ;
    assert(cr_one <= 2 * x_one);
    let near = cb_width * ONE - x_one;
    assert(2 * big * near <= big * (c_width * ONE) + 6 * x_one
        && -(2 * big * near) <= big * (c_width * ONE) + 6
        * x_one);
    assert(2 * big * (cb_width - x) <= big * c_width + 6 * x
        && 2 * big * (x - cb_width) <= big * c_width + 6 * x)
        by (nonlinear_arith)
        requires
            near == cb_width * ONE - x_one,
            x_one == x * ONE,
            2 * big * near <= big * (c_width * ONE) + 6 * x_one,
            -(2 * big * near) <= big * (c_width * ONE) + 6 * x_one,
            ONE > 0,
    ;
    assert(c_width <= x) by (nonlinear_arith)
        requires
            c_width == c * BUCKET,
            x >= c * ONE,
            c > 0,
            BUCKET < ONE,
    ;
    assert(cb_width <= 2 * x);
    // So does the multiplier.
    let b_width = b * BUCKET;
    assert(b_width >= 100 * BUCKET) by (nonlinear_arith)
        requires
            b_width == b * BUCKET,
            b >= 100,
            BUCKET > 0,
    ;
    let m = bucket_multiplier(b as nat) as int;
    assert(m == nearest(b_width as nat, 1));
    lemma_nearest_error(b_width as nat, 1);
    assert(m * 1 == m);
    let cm = c * m;
    assert(big * (cm - cb_width) <= cb_width
        && big * (cb_width - cm) <= cb_width) by (nonlinear_arith)
        requires
            (m - b_width) * big <= b_width,
            (b_width - m) * big <= b_width,
            b_width == b * BUCKET,
            cm == c * m,
            cb_width == c * b * BUCKET,
            c > 0,
    ;
    assert(2 * big * (cm - x) <= big * c_width + 10 * x
        && 2 * big * (x - cm) <= big * c_width + 10 * x);
    assert(10 * x == 2560 * d * big) by (nonlinear_arith)
        requires
            x == d * ONE,
            ONE == 0x2000_0000_0000_0000,
            big == 0x20_0000_0000_0000,
    ;
    assert(2 * (cm - x) <= c_width + 2560 * d
        && 2 * (x - cm) <= c_width + 2560 * d) by (nonlinear_arith)
        requires
            2 * big * (cm - x) <= big * c_width + 2560 * d * big,
            2 * big * (x - cm) <= big * c_width + 2560 * d * big,
            big > 0,
    ;
    assert(cap * m == cm && cap * BUCKET == c_width && damage * ONE == x);
}

/// A hit lies at the peak of its own bucket.
proof fn lemma_at_own_peak(damage: i32, cap: i32)
    requires
        reaches(damage, cap),
    ensures
        at_peak(damage as int, cap as int, bucket_multiplier(bucket_of((damage, cap)))),
{
    let d = damage as int;
    let c = cap as int;
    let x = d * ONE;
    let big: int = 0x20_0000_0000_0000;
    let m = bucket_multiplier(bucket_of((damage, cap)));
    lemma_multiplier_close(damage, cap);
    let cm = c * m;
    assert(cm >= 0x10_0000_0000_0000) by (nonlinear_arith)
        requires
            cm == c * m,
            c >= 1,
            m >= 0x10_0000_0000_0000,
    ;
    lemma_nearest_error(cm as nat, 1);
    let peak = nearest(cm as nat, 1) as int;
    assert(peak * 1 == peak);
    assert(2 * x == 512 * d * big) by (nonlinear_arith)
        requires
            x == d * ONE,
            ONE == 0x2000_0000_0000_0000,
            big == 0x20_0000_0000_0000,
    ;
    assert(peak - cm <= 512 * d && cm - peak <= 512 * d) by (nonlinear_arith)
        requires
            (peak - cm) * big <= cm,
            (cm - peak) * big <= cm,
            cm <= 2 * x,
            2 * x == 512 * d * big,
            big > 0,
    ;
    let gap = if peak < x {
        x - peak
    } else {
        peak - x
    };
    let c_width = c * BUCKET;
    let d_width = d * BUCKET;
    assert(c_width <= d_width) by (nonlinear_arith)
        requires
            c_width == c * BUCKET,
            d_width == d * BUCKET,
            c <= d,
            BUCKET > 0,
    ;
    assert(2 * gap <= d_width + 3584 * d);
    lemma_nearest_close(gap as nat, 1);
    assert((gap as nat) / 1 == gap);
    let d_share = d * TOLERANCE;
    assert(d_share >= TOLERANCE
        && d_width + 3585 * d <= d_share - d && d_share < big * d) by (nonlinear_arith)
        requires
            d_share == d * TOLERANCE,
            d_width == d * BUCKET,
            d >= 1,
            TOLERANCE == 6_917_529_027_641_082,
            BUCKET == 4_611_686_018_427_388,
            big == 0x20_0000_0000_0000,
    ;
    lemma_nearest_error(d_share as nat, 1);
    let share = nearest(d_share as nat, 1) as int;
    assert(share * 1 == share);
    assert(share >= d_share - d) by (nonlinear_arith)
        requires
            (d_share - share) * big <= d_share,
            d_share < big * d,
            big > 0,
    ;
    assert(nearest(gap as nat, 1) <= share);
}

proof fn lemma_in_ratio(samples: Seq<(i32, i32)>, damage: i32, cap: i32)
    requires
        reaches(damage, cap),
    ensures
        in_ratio(samples, damage, cap) <= bucket_count(samples, bucket_of((damage, cap))),
        reaching(samples) == sample_count(samples),
    decreases samples.len(),
{
    if samples.len() > 0 {
        lemma_in_ratio(samples.drop_last(), damage, cap);
        let (d, c) = samples.last();
        if reaches(d, c) && d * cap == damage * c {
            assert((d * ONE) * cap == (damage * ONE) * c) by (nonlinear_arith)
                requires
                    d * cap == damage * c,
            ;
            lemma_nearest_same_ratio(
                (d * ONE) as nat,
                c as nat,
                (damage * ONE) as nat,
                cap as nat,
            );
            assert(bucket_of((d, c)) == bucket_of((damage, cap)));
        }
    }
}

/// A ratio of damage to cap that keeps coming back is learned: if at least three of the samples
/// that reach their cap, and at least one in a hundred of them, have it, every hit with that
/// ratio to its cap is capped.
pub proof fn law_recurring_ratios_are_capped(samples: Seq<(i32, i32)>, damage: i32, cap: i32)
    requires
        reaches(damage, cap),
        in_ratio(samples, damage, cap) >= 3,
        in_ratio(samples, damage, cap) >= reaching(samples) / 100,
    ensures
        capped_among(damage, Some(cap), samples),
{
    let bucket = bucket_of((damage, cap));
    lemma_in_ratio(samples, damage, cap);
    lemma_at_own_peak(damage, cap);
    lemma_bucket_small(damage, cap);
    assert(learning_threshold(samples) <= in_ratio(samples, damage, cap));
    assert(is_recurring(samples, bucket as u64));
}

proof fn lemma_bucket_small(damage: i32, cap: i32)
    requires
        reaches(damage, cap),
    ensures
        bucket_of((damage, cap)) <= u64::MAX,
{
    lemma_multiplier_close(damage, cap);
    let b = bucket_of((damage, cap));
    let m = bucket_multiplier(b);
    lemma_nearest_close(b * BUCKET as nat, 1);
    let b_width = b * BUCKET as nat;
    assert(b_width / 1 == b_width);
    assert(b <= u64::MAX) by (nonlinear_arith)
        requires
            b_width == b * BUCKET,
            b_width <= 2 * m,
            cap * m <= 2 * (damage * ONE),
            cap >= 1,
            damage <= 0x7FFF_FFFF,
            BUCKET == 4_611_686_018_427_388,
            ONE == 0x2000_0000_0000_0000,
    ;
}

/// The place of a sample that fell into a bucket that is not empty.
proof fn lemma_bucket_has_sample(samples: Seq<(i32, i32)>, bucket: nat) -> (k: int)
    requires
        bucket_count(samples, bucket) > 0,
    ensures
        0 <= k < samples.len(),
        reaches(samples[k].0, samples[k].1),
        bucket_of(samples[k]) == bucket,
    decreases samples.len(),
{
    let last = samples.len() - 1;
    if at_or_over_cap(samples.last()) && bucket_of(samples.last()) == bucket {
        last
    } else {
        lemma_bucket_has_sample(samples.drop_last(), bucket)
    }
}

/// Whether the ratio of damage to cap is about the same in two hits: they differ by less than
/// one in two hundred, or by what two points of damage make.
pub open spec fn about_same_ratio(damage: i32, cap: i32, other_damage: i32, other_cap: i32) -> bool {
    let a = damage * other_cap;
    let b = other_damage * cap;
    let slack = 5 * a + 2001 * other_cap;
    1000 * (a - b) <= slack && 1000 * (b - a) <= slack
}

/// How many samples reach their cap with damage in about the same ratio to it as `damage` to
/// `cap`.
pub open spec fn about_in_ratio(samples: Seq<(i32, i32)>, damage: i32, cap: i32) -> nat
    decreases samples.len(),
{
    if samples.len() == 0 {
        0
    } else {
        let (d, c) = samples.last();
        about_in_ratio(samples.drop_last(), damage, cap) + if reaches(d, c) && about_same_ratio(
            damage,
            cap,
            d,
            c,
        ) {
            1nat
        } else {
            0nat
        }
    }
}

proof fn lemma_about_in_ratio(samples: Seq<(i32, i32)>, damage: i32, cap: i32, bucket: nat)
    requires
        reaches(damage, cap),
        at_peak(damage as int, cap as int, bucket_multiplier(bucket)),
    ensures
        bucket_count(samples, bucket) <= about_in_ratio(samples, damage, cap),
    decreases samples.len(),
{
    if samples.len() > 0 {
        lemma_about_in_ratio(samples.drop_last(), damage, cap, bucket);
        let (d, c) = samples.last();
        if reaches(d, c) && bucket_of((d, c)) == bucket {
            lemma_peaks_meet(damage, cap, d, c);
        }
    }
}

proof fn lemma_bucket_within(samples: Seq<(i32, i32)>, bucket: nat)
    ensures
        bucket_count(samples, bucket) <= reaching(samples),
    decreases samples.len(),
{
    if samples.len() > 0 {
        lemma_bucket_within(samples.drop_last(), bucket);
    }
}

/// While fewer than three samples reach their cap nothing is learned: a hit is capped exactly if
/// it reaches its cap.
pub proof fn law_few_samples_teach_nothing(samples: Seq<(i32, i32)>, damage: i32, cap: i32)
    requires
        reaching(samples) < 3,
    ensures
        capped_among(damage, Some(cap), samples) <==> reaches(damage, cap),
        !capped_among(damage, None, samples),
{
    assert forall|bucket: u64| !is_recurring(samples, bucket) by {
        lemma_bucket_within(samples, bucket as nat);
    }
}

/// Once some ratio has been learned, a hit is capped only if its own is about one that samples
/// show: it has a known cap and reaches it, and so do samples of about the same ratio, three of
/// them at least, and one in a hundred.
pub proof fn law_capped_hits_lie_at_a_peak(samples: Seq<(i32, i32)>, damage: i32, cap: Option<i32>) -> (k:
    int)
    requires
        capped_among(damage, cap, samples),
    ensures
        cap is Some,
        reaches(damage, cap->0),
        (forall|bucket: u64| !is_recurring(samples, bucket)) || {
            &&& 0 <= k < samples.len()
            &&& reaches(samples[k].0, samples[k].1)
            &&& about_same_ratio(damage, cap->0, samples[k].0, samples[k].1)
            &&& about_in_ratio(samples, damage, cap->0) >= 3
            &&& about_in_ratio(samples, damage, cap->0) >= reaching(samples) / 100
        },
{
    let c = cap->0;
    if forall|bucket: u64| !is_recurring(samples, bucket) {
        0
    } else {
        let bucket = choose|bucket: u64| #[trigger]
            is_recurring(samples, bucket) && at_peak(
                damage as int,
                c as int,
                bucket_multiplier(bucket as nat),
            );
        let k = lemma_bucket_has_sample(samples, bucket as nat);
        lemma_peaks_meet(damage, c, samples[k].0, samples[k].1);
        lemma_about_in_ratio(samples, damage, c, bucket as nat);
        lemma_in_ratio(samples, damage, c);
        k
    }
}

proof fn lemma_peaks_meet(damage: i32, cap: i32, other_damage: i32, other_cap: i32)
    requires
        reaches(damage, cap),
        reaches(other_damage, other_cap),
        at_peak(
            damage as int,
            cap as int,
            bucket_multiplier(bucket_of((other_damage, other_cap))),
        ),
    ensures
        about_same_ratio(damage, cap, other_damage, other_cap),
{
    let d = damage as int;
    let c = cap as int;
    let e = other_damage as int;
    let f = other_cap as int;
    let x = d * ONE;
    let big: int = 0x20_0000_0000_0000;
    let m = bucket_multiplier(bucket_of((other_damage, other_cap))) as int;
    lemma_multiplier_close(other_damage, other_cap);
    let cm = c * m;
    assert(cm >= 0x10_0000_0000_0000) by (nonlinear_arith)
        requires
            cm == c * m,
            c >= 1,
            m >= 0x10_0000_0000_0000,
    ;
    lemma_nearest_error(cm as nat, 1);
    let peak = nearest(cm as nat, 1) as int;
    assert(peak * 1 == peak);
    let gap = if peak < x {
        x - peak
    } else {
        peak - x
    };
    lemma_nearest_close(gap as nat, 1);
    assert((gap as nat) / 1 == gap);
    let d_share = d * TOLERANCE;
    lemma_nearest_close(d_share as nat, 1);
    assert((d_share as nat) / 1 == d_share);
    assert(d_share >= TOLERANCE) by (nonlinear_arith)
        requires
            d_share == d * TOLERANCE,
            d >= 1,
            TOLERANCE > 0,
    ;
    lemma_nearest_error(d_share as nat, 1);
    let share = nearest(d_share as nat, 1) as int;
    assert(share * 1 == share);
    assert(share <= d_share + d) by (nonlinear_arith)
        requires
            (share - d_share) * big <= d_share,
            d_share == d * TOLERANCE,
            TOLERANCE < big,
            big > 0,
            d >= 1,
    ;
    let rounded = nearest(gap as nat, 1) as int;
    assert(rounded * 1 == rounded);
    assert(rounded <= d_share + d + 2 * ONE);
    assert(gap <= d_share + 2 * ONE + 1029 * d) by {
        if gap >= 0x10_0000_0000_0000 {
            lemma_nearest_error(gap as nat, 1);
            assert(gap <= 2 * rounded);
            assert((gap - rounded) * big <= 2 * (d_share + d + 2 * ONE));
            assert(gap - rounded <= 1028 * d) by (nonlinear_arith)
                requires
                    (gap - rounded) * big <= 2 * (d_share + d + 2 * ONE),
                    d_share == d * TOLERANCE,
                    TOLERANCE == 6_917_529_027_641_082,
                    ONE == 0x2000_0000_0000_0000,
                    big == 0x20_0000_0000_0000,
                    d >= 1,
            ;
        }
    }
    assert(x == 256 * d * big) by (nonlinear_arith)
        requires
            x == d * ONE,
            ONE == 0x2000_0000_0000_0000,
            big == 0x20_0000_0000_0000,
    ;
    assert(cm <= 2 * (x + gap));
    let off = cm - x;
    assert(2 * (x + gap) <= 3000 * d * big) by (nonlinear_arith)
        requires
            x == 256 * d * big,
            gap <= d_share + 2 * ONE + 1029 * d,
            d_share == d * TOLERANCE,
            TOLERANCE == 6_917_529_027_641_082,
            ONE == 0x2000_0000_0000_0000,
            big == 0x20_0000_0000_0000,
            d >= 1,
    ;
    assert(peak - cm <= 3000 * d && cm - peak <= 3000 * d) by (nonlinear_arith)
        requires
            (peak - cm) * big <= cm,
            (cm - peak) * big <= cm,
            cm <= 3000 * d * big,
            big > 0,
    ;
    assert(off <= gap + 3000 * d && -off <= gap + 3000 * d);
    let fm = f * m;
    let y = e * ONE;
    let near = fm - y;
    let f_width = f * BUCKET;
    assert(2 * near <= f_width + 2560 * e && -(2 * near) <= f_width + 2560 * e);
    let diff = e * c - d * f;
    assert(ONE * diff == f * off - c * near) by (nonlinear_arith)
        requires
            diff == e * c - d * f,
            off == cm - x,
            cm == c * m,
            x == d * ONE,
            near == fm - y,
            fm == f * m,
            y == e * ONE,
    ;
    let a = d * f;
    let ec = e * c;
    let wide = gap + 3000 * d;
    assert(f * off <= f * wide && -(f * off) <= f * wide) by (nonlinear_arith)
        requires
            off <= wide,
            -off <= wide,
            f > 0,
    ;
    assert(2 * (c * near) <= c * (f_width + 2560 * e)
        && -(2 * (c * near)) <= c * (f_width + 2560 * e))
        by (nonlinear_arith)
        requires
            2 * near <= f_width + 2560 * e,
            -(2 * near) <= f_width + 2560 * e,
            c > 0,
    ;
    assert(c * (f_width + 2560 * e) <= a * BUCKET + 2560 * ec) by (nonlinear_arith)
        requires
            f_width == f * BUCKET,
            a == d * f,
            ec == e * c,
            c <= d,
            f > 0,
            BUCKET > 0,
    ;
    assert(wide <= d_share + 2 * ONE + 4029 * d);
    assert(f * wide <= a * (TOLERANCE + 4029) + 2 * (ONE * f)) by (nonlinear_arith)
        requires
            wide <= d_share + 2 * ONE + 4029 * d,
            d_share == d * TOLERANCE,
            a == d * f,
            f > 0,
    ;
    let room = a * (2 * TOLERANCE + 8058 + BUCKET) + 4 * (ONE * f) + 2560 * ec;
    assert(2 * (ONE * diff) <= room && -(2 * (ONE * diff)) <= room) by (nonlinear_arith)
        requires
            ONE * diff == f * off - c * near,
            f * off <= f * wide,
            -(f * off) <= f * wide,
            2 * (c * near) <= a * BUCKET + 2560 * ec,
            -(2 * (c * near)) <= a * BUCKET + 2560 * ec,
            f * wide <= a * (TOLERANCE + 4029) + 2 * (ONE * f),
            room == a * (2 * TOLERANCE + 8058 + BUCKET) + 4 * (ONE * f) + 2560 * ec,
    ;
    assert(a >= 0 && ec >= 0) by (nonlinear_arith)
        requires
            a == d * f,
            ec == e * c,
            d >= 0,
            f >= 0,
            e >= 0,
            c >= 0,
    ;
    let slack = 5 * a + 2001 * f;
    assert(ONE == 0x2000_0000_0000_0000);
    assert(2 * TOLERANCE + 8058 + BUCKET == 18_446_744_073_717_610);
    assert(1000 * diff <= slack && -(1000 * diff) <= slack) by {
        assert(ec == a + diff);
    }
    assert(damage * other_cap == a && other_damage * cap == ec);
}

/// Whether the ratios of damage to cap of two hits lie so close together that the first is seen
/// to be that of the second: they differ by hardly more than two in a thousand, or by what one
/// point of damage makes. The ratio itself is learned to one in a thousand.
pub open spec fn close_ratio(damage: i32, cap: i32, other_damage: i32, other_cap: i32) -> bool {
    let apart = if damage * other_cap < other_damage * cap {
        other_damage * cap - damage * other_cap
    } else {
        damage * other_cap - other_damage * cap
    };
    ||| 100_000 * apart + 100 * (cap * other_cap) <= 299 * (damage * other_cap)
    ||| 1000 * apart + cap * other_cap <= 1990 * other_cap
}

proof fn lemma_at_close_peak(damage: i32, cap: i32, other_damage: i32, other_cap: i32)
    requires
        reaches(damage, cap),
        reaches(other_damage, other_cap),
        close_ratio(damage, cap, other_damage, other_cap),
    ensures
        at_peak(
            damage as int,
            cap as int,
            bucket_multiplier(bucket_of((other_damage, other_cap))),
        ),
{
    let d = damage as int;
    let c = cap as int;
    let e = other_damage as int;
    let f = other_cap as int;
    let x = d * ONE;
    let big: int = 0x20_0000_0000_0000;
    let m = bucket_multiplier(bucket_of((other_damage, other_cap))) as int;
    lemma_multiplier_close(other_damage, other_cap);
    let cm = c * m;
    let off = cm - x;
    let near = f * m - e * ONE;
    let a = d * f;
    let ec = e * c;
    let cf = c * f;
    let diff = ec - a;
    let apart = if diff > 0 {
        diff
    } else {
        -diff
    };
    assert(damage * other_cap == a && other_damage * cap == ec && cap * other_cap == cf);
    assert(cf <= a && a >= f && a >= 0 && cf >= 0) by (nonlinear_arith)
        requires
            cf == c * f,
            a == d * f,
            0 < c <= d,
            f > 0,
    ;
    assert(f * off == ONE * diff + c * near) by (nonlinear_arith)
        requires
            diff == ec - a,
            ec == e * c,
            a == d * f,
            off == cm - x,
            cm == c * m,
            x == d * ONE,
            near == f * m - e * ONE,
    ;
    assert(2 * (c * near) <= cf * BUCKET + 2560 * ec && -(2 * (c * near)) <= cf * BUCKET + 2560
        * ec) by (nonlinear_arith)
        requires
            2 * near <= f * BUCKET + 2560 * e,
            -(2 * near) <= f * BUCKET + 2560 * e,
            c > 0,
            cf == c * f,
            ec == e * c,
    ;
    assert(ONE == 0x2000_0000_0000_0000 && BUCKET == 4_611_686_018_427_388 && TOLERANCE
        == 6_917_529_027_641_082);
    let fo = if off < 0 {
        -(f * off)
    } else {
        f * off
    };
    assert(2 * fo <= 2 * (ONE * apart) + cf * BUCKET + 2560 * ec);
    let size = if off < 0 {
        -off
    } else {
        off
    };
    assert(fo == f * size) by (nonlinear_arith)
        requires
            fo == (if off < 0 {
                -(f * off)
            } else {
                f * off
            }),
            size == (if off < 0 {
                -off
            } else {
                off
            }),
    ;
    let wide = if 100_000 * apart + 100 * cf <= 299 * a {
        6_894_470_597_551_945 * d
    } else {
        4_588_627_588_335_262_236 + 4000 * d
    };
    assert(size <= wide) by {
        if 100_000 * apart + 100 * cf <= 299 * a {
            assert(ec <= 2 * a);
            assert(fo <= 6_894_470_597_551_945 * a);
            assert(size <= 6_894_470_597_551_945 * d) by (nonlinear_arith)
                requires
                    f * size <= 6_894_470_597_551_945 * (d * f),
                    f > 0,
            ;
        } else {
            assert(1000 * apart + cf <= 1990 * f);
            assert(ec <= a + 2 * f);
            assert(fo <= 4_588_627_588_335_262_236 * f + 4000 * a);
            assert(size <= 4_588_627_588_335_262_236 + 4000 * d) by (nonlinear_arith)
                requires
                    f * size <= 4_588_627_588_335_262_236 * f + 4000 * (d * f),
                    f > 0,
            ;
        }
    }
    assert(cm >= 0x10_0000_0000_0000) by (nonlinear_arith)
        requires
            cm == c * m,
            c >= 1,
            m >= 0x10_0000_0000_0000,
    ;
    lemma_nearest_error(cm as nat, 1);
    let peak = nearest(cm as nat, 1) as int;
    assert(peak * 1 == peak);
    assert(d <= 0x7FFF_FFFF);
    assert(x + wide <= 1024 * d * big);
    assert(peak - cm <= 1024 * d && cm - peak <= 1024 * d) by (nonlinear_arith)
        requires
            (peak - cm) * big <= cm,
            (cm - peak) * big <= cm,
            cm <= 1024 * d * big,
            big > 0,
    ;
    let gap = if peak < x {
        x - peak
    } else {
        peak - x
    };
    assert(gap <= wide + 1024 * d);
    lemma_nearest_close(gap as nat, 1);
    assert((gap as nat) / 1 == gap);
    let rounded = nearest(gap as nat, 1) as int;
    assert(rounded * 1 == rounded);
    let d_share = d * TOLERANCE;
    lemma_nearest_error(d_share as nat, 1);
    let share = nearest(d_share as nat, 1) as int;
    assert(share * 1 == share);
    assert(share >= d_share - d) by (nonlinear_arith)
        requires
            (d_share - share) * big <= d_share,
            d_share == d * TOLERANCE,
            TOLERANCE < big,
            big > 0,
            d >= 1,
    ;
    if gap >= 0x10_0000_0000_0000 {
        lemma_nearest_error(gap as nat, 1);
        assert(gap <= 1024 * d * big);
        assert(rounded - gap <= 1024 * d) by (nonlinear_arith)
            requires
                (rounded - gap) * big <= gap,
                gap <= 1024 * d * big,
                big > 0,
        ;
    }
}

/// A hit whose ratio to its cap is close to one that keeps coming back is capped.
pub proof fn law_close_ratios_are_capped(
    samples: Seq<(i32, i32)>,
    damage: i32,
    cap: i32,
    other_damage: i32,
    other_cap: i32,
)
    requires
        reaches(damage, cap),
        reaches(other_damage, other_cap),
        close_ratio(damage, cap, other_damage, other_cap),
        in_ratio(samples, other_damage, other_cap) >= 3,
        in_ratio(samples, other_damage, other_cap) >= reaching(samples) / 100,
    ensures
        capped_among(damage, Some(cap), samples),
{
    let bucket = bucket_of((other_damage, other_cap));
    lemma_in_ratio(samples, other_damage, other_cap);
    lemma_at_close_peak(damage, cap, other_damage, other_cap);
    lemma_bucket_small(other_damage, other_cap);
    assert(is_recurring(samples, bucket as u64));
}

} // verus!
