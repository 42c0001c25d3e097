//! Damage cap detection.
//!
//! A hit is capped when its damage sits at its cap, or at its cap times one of the
//! multipliers critical hits apply. The multipliers are not known up front: they
//! are learned from the ratios of damage to cap that keep coming back in a log.

use std::collections::HashMap;
use vstd::arithmetic::div_mod::lemma_fundamental_div_mod;
use vstd::arithmetic::power2::{
    lemma2_to64, lemma2_to64_rest, lemma_pow2_strictly_increases, lemma_pow2_unfold, pow2,
};
use vstd::prelude::*;

use crate::double;
use crate::double::{
    lemma_half_up_scaled, lemma_nearest_close, lemma_nearest_scaled, nearest, round_half_up, ONE,
};
use crate::keys::keys_of;

verus! {

/// The cap the game reports when no cap is known for a hit.
pub const UNAVAILABLE_DAMAGE_CAP: i32 = 99_999_999;

/// The double nearest to 0.002, in units: the width of a ratio bucket.
pub const BUCKET: u128 = 4_611_686_018_427_388;

/// The double nearest to 0.003, in units: the share of the damage that a capped
/// hit may lie off its peak.
pub const TOLERANCE: u128 = 6_917_529_027_641_082;

/// Two to the 98th: what every multiplier stays below, in units.
pub const MULTIPLIER_LIMIT: u128 = 0x4_0000_0000_0000_0000_0000_0000;

/// A cap that is present, positive and below the placeholder.
pub open spec fn cap_known(cap: Option<i32>) -> bool {
    cap matches Some(c) && 0 < c < UNAVAILABLE_DAMAGE_CAP
}

/// Whether `cap` carries usable information.
pub fn is_cap_known(cap: Option<i32>) -> (known: bool)
    ensures
        known == cap_known(cap),
{
    match cap {
        Some(c) => c > 0 && c < UNAVAILABLE_DAMAGE_CAP,
        None => false,
    }
}

/// A factor between a cap and the damage of a capped hit, as an exact number of
/// units of 2^-61.
#[derive(Clone, Copy, Debug, PartialEq, Eq, Structural)]
pub struct CritMultiplier {
    units: u128,
}

impl CritMultiplier {
    /// The number of units.
    pub closed spec fn value(self) -> nat {
        self.units as nat
    }

    #[verifier::type_invariant]
    spec fn in_range(self) -> bool {
        self.units < MULTIPLIER_LIMIT
    }

    /// The multiplier with the value of the double whose bit pattern is `bits`.
    ///
    /// Only doubles from 2^-9 up to (but not including) 2^35 have one: they are
    /// whole numbers of units.
    pub fn from_bits(bits: u64) -> (multiplier: Option<CritMultiplier>)
        ensures
            match multiplier {
                Some(m) => double_units(bits) == Some(m.value()),
                None => double_units(bits) is None,
            },
    {
        let exponent: u64 = bits / 0x10_0000_0000_0000;
        if exponent < 1014 || exponent > 1057 {
            return None;
        }
        let significand: u128 = (bits % 0x10_0000_0000_0000 + 0x10_0000_0000_0000) as u128;
        let mut units: u128 = significand;
        let mut doublings: u64 = 0;
        proof {
            lemma2_to64();
        }
        while doublings < exponent - 1014
            invariant
                doublings <= exponent - 1014,
                1014 <= exponent <= 1057,
                significand < 0x20_0000_0000_0000,
                units == significand * pow2(doublings as nat),
                pow2(doublings as nat) <= 0x800_0000_0000,
            decreases exponent - doublings,
        {
            proof {
                let p = pow2(doublings as nat);
                lemma_pow2_unfold((doublings + 1) as nat);
                lemma_pow2_below((doublings + 1) as nat);
                assert(significand * (2 * p) == 2 * (significand * p)) by (nonlinear_arith);
                assert(significand * p <= 0x20_0000_0000_0000 * 0x800_0000_0000) by (nonlinear_arith)
                    requires
                        significand <= 0x20_0000_0000_0000,
                        p <= 0x800_0000_0000,
                ;
            }
            units = units * 2;
            doublings = doublings + 1;
        }
        proof {
            let p = pow2(doublings as nat);
            assert(significand * p < 0x4_0000_0000_0000_0000_0000_0000) by (nonlinear_arith)
                requires
                    significand <= 0x20_0000_0000_0000,
                    p <= 0x800_0000_0000,
            ;
        }
        Some(CritMultiplier { units })
    }

    /// The number of units.
    pub fn units(&self) -> (units: u128)
        ensures
            units == self.value(),
    {
        self.units
    }
}

/// The number of units in the double with bit pattern `bits`, for those doubles that
/// can be a multiplier.
pub open spec fn double_units(bits: u64) -> Option<nat> {
    let exponent = bits / 0x10_0000_0000_0000;
    let significand = bits % 0x10_0000_0000_0000 + 0x10_0000_0000_0000;
    if 1014 <= exponent <= 1057 {
        Some((significand * pow2((exponent - 1014) as nat)) as nat)
    } else {
        None
    }
}

proof fn lemma_pow2_below(e: nat)
    requires
        e <= 43,
    ensures
        pow2(e) <= 0x800_0000_0000,
{
    lemma2_to64();
    lemma2_to64_rest();
    if e < 43 {
        lemma_pow2_strictly_increases(e, 43);
    }
}

/// Whether a (damage, cap) sample takes part in learning.
pub open spec fn at_or_over_cap(sample: (i32, i32)) -> bool {
    cap_known(Some(sample.1)) && sample.0 >= sample.1
}

/// The double nearest to `damage / cap`, in units.
pub open spec fn ratio(sample: (i32, i32)) -> nat {
    nearest((sample.0 * ONE) as nat, sample.1 as nat)
}

/// The bucket a sample's ratio falls into.
pub open spec fn bucket_of(sample: (i32, i32)) -> nat {
    round_half_up(nearest(ratio(sample) * ONE as nat, BUCKET as nat), ONE as nat)
}

/// The multiplier a bucket stands for, in units.
pub open spec fn bucket_multiplier(bucket: nat) -> nat {
    nearest(bucket * BUCKET as nat, 1)
}

/// How many samples take part in learning.
pub open spec fn sample_count(samples: Seq<(i32, i32)>) -> nat
    decreases samples.len(),
{
    if samples.len() == 0 {
        0
    } else {
        sample_count(samples.drop_last()) + if at_or_over_cap(samples.last()) {
            1nat
        } else {
            0nat
        }
    }
}

/// How many samples fall into `bucket`.
pub open spec fn bucket_count(samples: Seq<(i32, i32)>, bucket: nat) -> nat
    decreases samples.len(),
{
    if samples.len() == 0 {
        0
    } else {
        bucket_count(samples.drop_last(), bucket) + if at_or_over_cap(samples.last()) && bucket_of(
            samples.last(),
        ) == bucket {
            1nat
        } else {
            0nat
        }
    }
}

/// How many samples a bucket must hold to count as a multiplier: one in a hundred,
/// and never fewer than three.
pub open spec fn learning_threshold(samples: Seq<(i32, i32)>) -> nat {
    let share = sample_count(samples) / 100;
    if share < 3 {
        3
    } else {
        share
    }
}

/// Whether a bucket recurs often enough.
pub open spec fn is_recurring(samples: Seq<(i32, i32)>, bucket: u64) -> bool {
    bucket_count(samples, bucket as nat) >= learning_threshold(samples)
}

/// `buckets` lists, each once, the buckets that recur often enough.
pub open spec fn recurring_buckets(samples: Seq<(i32, i32)>, buckets: Seq<u64>) -> bool {
    &&& buckets.no_duplicates()
    &&& forall|bucket: u64| #[trigger]
        buckets.contains(bucket) <==> is_recurring(samples, bucket)
}

/// `multipliers` are those of the recurring buckets, in some order.
pub open spec fn learned(samples: Seq<(i32, i32)>, multipliers: Seq<CritMultiplier>) -> bool {
    exists|buckets: Seq<u64>| #[trigger]
        recurring_buckets(samples, buckets) && buckets.len() == multipliers.len() && forall|i: int|
            0 <= i < multipliers.len() ==> (#[trigger] multipliers[i]).value() == bucket_multiplier(
                buckets[i] as nat,
            )
}

/// The quotient that decides a sample's bucket, computed with few enough bits to
/// fit, and the number of its units in one.
fn bucket_quotient(units: u128) -> (quotient: (u128, u128))
    requires
        ONE <= 2 * units,
        units <= 0x2000_0000_0000_0000_0000_0000,
    ensures
        round_half_up(quotient.0 as nat, quotient.1 as nat) == round_half_up(
            nearest(units as nat * ONE as nat, BUCKET as nat),
            ONE as nat,
        ),
        quotient.0 < 0x10_0000_0000_0000_0000_0000,
        quotient.1 == 0x2000_0000_0000 || quotient.1 == 0x80_0000,
        quotient.1 == 0x80_0000 ==> quotient.0 <= 0x4_0000_0000_0000_0000,
{
    proof {
        lemma2_to64();
    }
    if units < 0x4_0000_0000_0000_0000_0000 {
        let scaled: u128 = units * 0x2000_0000_0000;
        proof {
            lemma_nearest_scaled(scaled as nat, BUCKET as nat, 16);
            lemma_nearest_close(scaled as nat, BUCKET as nat);
            let v = nearest(scaled as nat, BUCKET as nat);
            assert(scaled * 0x1_0000 == units * ONE);
            lemma_half_up_scaled(v, 0x2000_0000_0000, 0x1_0000);
        }
        (double::divide(scaled, BUCKET), 0x2000_0000_0000)
    } else {
        let scaled: u128 = units * 0x80_0000;
        proof {
            lemma2_to64_rest();
            lemma_nearest_scaled(scaled as nat, BUCKET as nat, 38);
            lemma_nearest_close(scaled as nat, BUCKET as nat);
            let v = nearest(scaled as nat, BUCKET as nat);
            assert(scaled * 0x40_0000_0000 == units * ONE);
            lemma_half_up_scaled(v, 0x80_0000, 0x40_0000_0000);
        }
        (double::divide(scaled, BUCKET), 0x80_0000)
    }
}

/// The bucket `damage / cap` falls into.
fn bucket(damage: i32, cap: i32) -> (bucket: u64)
    requires
        at_or_over_cap((damage, cap)),
    ensures
        bucket == bucket_of((damage, cap)),
        bucket <= 0x800_0000_0000,
{
    let scaled: u128 = damage as u128 * ONE;
    let units: u128 = double::divide(scaled, cap as u128);
    proof {
        lemma_nearest_close(scaled as nat, cap as nat);
        let q = scaled as nat / cap as nat;
        lemma_fundamental_div_mod(scaled as int, cap as int);
        assert(q >= ONE) by (nonlinear_arith)
            requires
                scaled == damage * ONE,
                damage >= cap,
                cap > 0,
                scaled == cap * q + scaled as nat % cap as nat,
                0 <= scaled as nat % (cap as nat) < cap,
                ONE > 0,
        ;
        assert(q <= scaled) by (nonlinear_arith)
            requires
                cap >= 1,
                q >= 0,
                scaled == cap * q + scaled as nat % cap as nat,
                0 <= scaled as nat % cap as nat,
        ;
    }
    let (quotient, one): (u128, u128) = bucket_quotient(units);
    let rounded: u128 = (2 * quotient + one) / (2 * one);
    assert(rounded <= 0x800_0000_0000) by {
        if one == 0x80_0000 {
            assert(rounded == (2 * quotient + 0x80_0000) / 0x100_0000);
        } else {
            assert(rounded == (2 * quotient + 0x2000_0000_0000) / 0x4000_0000_0000);
        }
    }
    rounded as u64
}

/// The multiplier that `bucket` stands for.
fn multiplier(bucket: u64) -> (multiplier: CritMultiplier)
    requires
        bucket <= 0x800_0000_0000,
    ensures
        multiplier.value() == bucket_multiplier(bucket as nat),
{
    let exact: u128 = bucket as u128 * BUCKET;
    proof {
        lemma_nearest_close(exact as nat, 1);
    }
    CritMultiplier { units: double::round(exact) }
}

/// The multipliers that keep coming back in `samples`, pairs of damage and cap.
pub fn learn_crit_multipliers(samples: &[(i32, i32)]) -> (multipliers: Vec<CritMultiplier>)
    ensures
        learned(samples@, multipliers@),
{
    broadcast use vstd::std_specs::hash::group_hash_axioms;

    let mut counts: HashMap<u64, u64> = HashMap::new();
    let mut total: u64 = 0;
    let mut i: usize = 0;
    assert(samples@.take(0) == Seq::<(i32, i32)>::empty());
    while i < samples.len()
        invariant
            i <= samples.len(),
            total == sample_count(samples@.take(i as int)),
            total <= i,
            forall|bucket: u64| #[trigger]
                counts@.contains_key(bucket) ==> counts@[bucket] == bucket_count(
                    samples@.take(i as int),
                    bucket as nat,
                ) && counts@[bucket] <= total && bucket <= 0x800_0000_0000,
            forall|bucket: u64|
                !#[trigger] counts@.contains_key(bucket) ==> bucket_count(
                    samples@.take(i as int),
                    bucket as nat,
                ) == 0,
        decreases samples.len() - i,
    {
        let (damage, cap): (i32, i32) = samples[i];
        assert(samples@.take(i + 1).drop_last() == samples@.take(i as int));
        assert(samples@.take(i + 1).last() == (damage, cap));
        if is_cap_known(Some(cap)) && damage >= cap {
            let bucket: u64 = bucket(damage, cap);
            let seen: u64 = match counts.get(&bucket) {
                Some(count) => *count,
                None => 0,
            };
            counts.insert(bucket, seen + 1);
            total = total + 1;
        }
        i = i + 1;
    }
    assert(samples@.take(i as int) == samples@);
    let threshold: u64 = if total / 100 < 3 {
        3
    } else {
        total / 100
    };
    let buckets: Vec<u64> = keys_of(&counts);
    let mut multipliers: Vec<CritMultiplier> = Vec::new();
    let ghost mut kept: Seq<u64> = Seq::empty();
    let mut j: usize = 0;
    while j < buckets.len()
        invariant
            j <= buckets.len(),
            threshold == learning_threshold(samples@),
            buckets@.no_duplicates(),
            forall|bucket: u64|
                buckets@.contains(bucket) <==> #[trigger] counts@.contains_key(bucket),
            forall|bucket: u64| #[trigger]
                counts@.contains_key(bucket) ==> counts@[bucket] == bucket_count(
                    samples@,
                    bucket as nat,
                ) && bucket <= 0x800_0000_0000,
            kept.no_duplicates(),
            forall|bucket: u64| #[trigger]
                kept.contains(bucket) <==> buckets@.take(j as int).contains(bucket) && bucket_count(
                    samples@,
                    bucket as nat,
                ) >= threshold,
            kept.len() == multipliers.len(),
            forall|k: int|
                0 <= k < multipliers.len() ==> (#[trigger] multipliers@[k]).value()
                    == bucket_multiplier(kept[k] as nat),
        decreases buckets.len() - j,
    {
        let bucket: u64 = buckets[j];
        assert(buckets@.contains(bucket));
        assert(counts@.contains_key(bucket));
        let ghost before = kept;
        assert(buckets@.take(j + 1) == buckets@.take(j as int).push(bucket));
        assert(!buckets@.take(j as int).contains(bucket));
        assert(!before.contains(bucket));
        if let Some(count) = counts.get(&bucket) {
            if *count >= threshold {
                multipliers.push(multiplier(bucket));
                proof {
                    kept = kept.push(bucket);
                }
            }
        }
        proof {
            lemma_push_contains(buckets@.take(j as int), bucket);
            lemma_push_contains(before, bucket);
            assert(kept == before || kept == before.push(bucket));
            assert forall|a: int, b: int| 0 <= a < b < kept.len() implies kept[a] != kept[b] by {
                if b < before.len() {
                    assert(before[a] != before[b]);
                } else {
                    assert(before.contains(kept[a]));
                }
            }
        }
        j = j + 1;
    }
    proof {
        assert(buckets@.take(j as int) == buckets@);
        assert forall|bucket: u64| #[trigger]
            kept.contains(bucket) <==> is_recurring(samples@, bucket) by {
            assert(buckets@.contains(bucket) <==> counts@.contains_key(bucket));
        }
        assert(recurring_buckets(samples@, kept));
    }
    multipliers
}

proof fn lemma_push_contains(s: Seq<u64>, v: u64)
    ensures
        forall|x: u64| #[trigger] s.push(v).contains(x) <==> s.contains(x) || x == v,
{
    assert forall|x: u64| #[trigger] s.push(v).contains(x) <==> s.contains(x) || x == v by {
        if s.contains(x) {
            let i = choose|i: int| 0 <= i < s.len() && s[i] == x;
            assert(s.push(v)[i] == x);
        }
        if x == v {
            assert(s.push(v)[s.len() as int] == x);
        }
    }
}

/// Whether `damage` lies at the peak that `multiplier` puts above `cap`: the
/// distance, in doubles, is at most 0.3 % of the damage, or two.
pub open spec fn at_peak(damage: int, cap: int, multiplier: nat) -> bool {
    let peak = nearest((cap * multiplier) as nat, 1) as int;
    let target = damage * ONE;
    let gap = if peak < target {
        target - peak
    } else {
        peak - target
    };
    let share = nearest((damage * TOLERANCE) as nat, 1);
    nearest(gap as nat, 1) <= if share < 2 * ONE {
        (2 * ONE) as nat
    } else {
        share
    }
}

/// What makes a hit capped.
pub open spec fn capped(damage: i32, cap: Option<i32>, multipliers: Seq<CritMultiplier>) -> bool {
    cap matches Some(c) && cap_known(cap) && damage >= c && (multipliers.len() == 0 || exists|i: int|
        0 <= i < multipliers.len() && at_peak(
            damage as int,
            c as int,
            (#[trigger] multipliers[i]).value(),
        ))
}

/// What makes a hit capped once the multipliers have been learned from `samples`.
pub open spec fn capped_among(damage: i32, cap: Option<i32>, samples: Seq<(i32, i32)>) -> bool {
    cap matches Some(c) && cap_known(cap) && damage >= c && ((forall|bucket: u64|
        !is_recurring(samples, bucket)) || exists|bucket: u64| #[trigger]
        is_recurring(samples, bucket) && at_peak(
            damage as int,
            c as int,
            bucket_multiplier(bucket as nat),
        ))
}

/// Which hits are capped does not depend on the order of the learned multipliers.
pub proof fn lemma_capped_among(
    samples: Seq<(i32, i32)>,
    multipliers: Seq<CritMultiplier>,
    damage: i32,
    cap: Option<i32>,
)
    requires
        learned(samples, multipliers),
    ensures
        capped(damage, cap, multipliers) == capped_among(damage, cap, samples),
{
    let buckets = choose|buckets: Seq<u64>| #[trigger]
        recurring_buckets(samples, buckets) && buckets.len() == multipliers.len() && forall|i: int|
            0 <= i < multipliers.len() ==> (#[trigger] multipliers[i]).value() == bucket_multiplier(
                buckets[i] as nat,
            );
    assert forall|i: int| 0 <= i < buckets.len() implies is_recurring(
        samples,
        #[trigger] buckets[i],
    ) by {
        assert(buckets.contains(buckets[i]));
    }
    if let Some(c) = cap {
        if capped(damage, cap, multipliers) && multipliers.len() > 0 {
            let i = choose|i: int|
                0 <= i < multipliers.len() && at_peak(
                    damage as int,
                    c as int,
                    (#[trigger] multipliers[i]).value(),
                );
            assert(is_recurring(samples, buckets[i]));
        }
        if capped(damage, cap, multipliers) && multipliers.len() == 0 {
            assert forall|bucket: u64| !is_recurring(samples, bucket) by {
                assert(!buckets.contains(bucket));
            }
        }
        if capped_among(damage, cap, samples) && multipliers.len() > 0 {
            assert(is_recurring(samples, buckets[0]));
            let bucket = choose|bucket: u64| #[trigger]
                is_recurring(samples, bucket) && at_peak(
                    damage as int,
                    c as int,
                    bucket_multiplier(bucket as nat),
                );
            assert(buckets.contains(bucket));
            let i = choose|i: int| 0 <= i < buckets.len() && buckets[i] == bucket;
            assert(multipliers[i].value() == bucket_multiplier(bucket as nat));
        }
    }
}

/// Whether a hit of `damage` was limited by `cap`. Without any multiplier every hit
/// that reaches its cap counts.
pub fn is_capped(damage: i32, cap: Option<i32>, crit_multipliers: &[CritMultiplier]) -> (answer:
    bool)
    ensures
        answer == capped(damage, cap, crit_multipliers@),
{
    let limit: i32 = match cap {
        Some(limit) => limit,
        None => {
            return false;
        },
    };
    if !is_cap_known(cap) || damage < limit {
        return false;
    }
    if crit_multipliers.len() == 0 {
        return true;
    }
    let share: u128 = double::round(damage as u128 * TOLERANCE);
    let tolerance: u128 = if share < 2 * ONE {
        2 * ONE
    } else {
        share
    };
    let target: u128 = damage as u128 * ONE;
    let mut i: usize = 0;
    while i < crit_multipliers.len()
        invariant
            i <= crit_multipliers.len(),
            cap == Some(limit),
            0 < limit < UNAVAILABLE_DAMAGE_CAP,
            limit <= damage,
            target == damage * ONE,
            tolerance == (if nearest((damage * TOLERANCE) as nat, 1) < 2 * ONE {
                (2 * ONE) as nat
            } else {
                nearest((damage * TOLERANCE) as nat, 1)
            }),
            forall|k: int|
                0 <= k < i ==> !at_peak(
                    damage as int,
                    limit as int,
                    (#[trigger] crit_multipliers@[k]).value(),
                ),
        decreases crit_multipliers.len() - i,
    {
        let multiplier: CritMultiplier = crit_multipliers[i];
        proof {
            use_type_invariant(&multiplier);
        }
        let units: u128 = multiplier.units;
        assert(limit * units < 0x4_0000_0000_0000_0000_0000_0000 * 0x800_0000) by (nonlinear_arith)
            requires
                0 < limit < 0x800_0000,
                units < 0x4_0000_0000_0000_0000_0000_0000,
        ;
        assert(limit * units >= 0) by (nonlinear_arith)
            requires
                limit > 0,
                units >= 0,
        ;
        let exact: u128 = limit as u128 * units;
        proof {
            lemma_nearest_close(exact as nat, 1);
        }
        let peak: u128 = double::round(exact);
        let gap: u128 = if peak < target {
            target - peak
        } else {
            peak - target
        };
        if double::round(gap) <= tolerance {
            assert(at_peak(damage as int, limit as int, crit_multipliers@[i as int].value()));
            return true;
        }
        i = i + 1;
    }
    false
}

/// A capped hit has a known cap, and reaches it.
pub proof fn law_capped_hits_reach_their_cap(damage: i32, cap: Option<i32>, samples: Seq<(i32, i32)>)
    ensures
        capped_among(damage, cap, samples) ==> cap_known(cap) && damage >= cap->0,
{
}

/// While no multiplier is known, every hit that reaches its cap is capped.
pub proof fn law_without_multipliers(damage: i32, cap: Option<i32>)
    ensures
        capped(damage, cap, Seq::empty()) <==> cap_known(cap) && damage >= cap->0,
{
}

} // verus!
