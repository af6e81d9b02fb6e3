//! The distributed probability of EVs arriving at a parking lot and their
//! charging needs, and the weighted sampling of one demand from such a
//! distribution.
use vstd::prelude::*;
use rand::Rng;
use crate::{MAX_DEMAND_BUCKETS, MAX_DISTANCE_M, PROB_SCALE};

verus! {

/// Chance of arrival, in parts per million, for the 24 hourly time slots of a
/// day; index 0 covers 00:00-00:59 and index 23 covers 23:00-23:59.
pub type ArrivalProbabilities = [u32; 24];

/// Chance of charging `n` meters worth of electricity, one bucket per row.
pub type ChargeProbabilities = Vec<ChargingNeed>;

/// One bucket of a demand distribution: the probability that an EV wants this
/// bucket, and how far it plans to travel on the charge.
#[derive(Debug, Clone, Copy)]
pub struct ChargingNeed {
    /// Probability mass of the bucket, in parts per million.
    pub prob_ppm: u32,
    /// Range that should be charged, in meters.
    pub charge_m: u32,
}

impl ChargingNeed {
    pub fn new(prob_ppm: u32, charge_m: u32) -> (r: Self)
        ensures
            r.prob_ppm == prob_ppm,
            r.charge_m == charge_m,
    {
        Self { prob_ppm, charge_m }
    }
}

/// Total probability mass of a distribution, in parts per million.
pub open spec fn prob_sum(s: Seq<ChargingNeed>) -> int
    decreases s.len(),
{
    if s.len() == 0 {
        0
    } else {
        prob_sum(s.drop_last()) + s.last().prob_ppm
    }
}

/// The demand, in meters, that a draw selects from the suffix `s` of a
/// distribution, after `acc` probability mass was already passed over: the
/// walk stops at the first bucket whose cumulative mass exceeds the draw, and
/// falls back to the last bucket when the whole mass is passed over.
pub open spec fn sample_from(s: Seq<ChargingNeed>, draw: int, acc: int) -> int
    decreases s.len(),
{
    if s.len() == 0 {
        0
    } else if s.len() == 1 || acc + s[0].prob_ppm > draw {
        s[0].charge_m as int
    } else {
        sample_from(s.drop_first(), draw, acc + s[0].prob_ppm)
    }
}

/// The demand, in meters, that the given draw selects from a distribution.
pub open spec fn spec_sample(s: Seq<ChargingNeed>, draw: int) -> int {
    sample_from(s, draw, 0)
}

/// Resolves one draw against the distribution: walks the buckets in order,
/// accumulating probability mass, and returns the range of the first bucket
/// whose cumulative mass exceeds the draw. A draw at or beyond the total mass
/// falls back to the last bucket; an empty distribution yields a zero demand.
pub fn sample_demand(charge_probabilities: &ChargeProbabilities, draw: u32) -> (r: u32)
    requires
        charge_probabilities@.len() <= MAX_DEMAND_BUCKETS,
    ensures
        r as int == spec_sample(charge_probabilities@, draw as int),
{
    let ghost s = charge_probabilities@;
    let n = charge_probabilities.len();
    if n == 0 {
        return 0;
    }
    let mut acc: u64 = 0;
    let mut i: usize = 0;
    proof {
        assert(s.skip(0) =~= s);
    }
    while i < n - 1
        invariant
            n == s.len(),
            n >= 1,
            n <= MAX_DEMAND_BUCKETS,
            0 <= i < n,
            s == charge_probabilities@,
            acc <= i * 0x1_0000_0000,
            spec_sample(s, draw as int) == sample_from(s.skip(i as int), draw as int, acc as int),
        decreases n - i,
    {
        let sector = charge_probabilities[i];
        proof {
            assert(s.skip(i as int)[0] == s[i as int]);
            assert(s.skip(i as int).drop_first() =~= s.skip(i + 1));
        }
        acc = acc + sector.prob_ppm as u64;
        if (draw as u64) < acc {
            return sector.charge_m;
        }
        i = i + 1;
    }
    proof {
        assert(s.skip(i as int).len() == 1);
        assert(s.skip(i as int)[0] == s[i as int]);
    }
    charge_probabilities[i].charge_m
}

/// Relies on `rand::Rng::gen_range` over `rand::thread_rng`: the returned
/// value lies in the given half-open range, which is non-empty here, so the
/// call does not panic. Nothing is assumed about its distribution.
#[verifier::external_body]
pub(crate) fn random_below(bound: u32) -> (r: u32)
    requires
        bound >= 1,
    ensures
        r < bound,
{
    rand::thread_rng().gen_range(0..bound)
}

/// Draws a fresh random number and checks with which bucket in the given
/// demand probability distribution the drawn value corresponds; returns that
/// bucket's range in meters.
pub fn get_weighted_demand(charge_probabilities: &ChargeProbabilities) -> (r: u32)
    requires
        charge_probabilities@.len() <= MAX_DEMAND_BUCKETS,
    ensures
        exists|draw: u32|
            draw < PROB_SCALE && r as int == spec_sample(charge_probabilities@, draw as int),
{
    let draw = random_below(PROB_SCALE);
    let r = sample_demand(charge_probabilities, draw);
    proof {
        assert(draw < PROB_SCALE && r as int == spec_sample(charge_probabilities@, draw as int));
    }
    r
}

/// Holds of a degenerate distribution whose every bucket asks for a zero
/// charge.
pub open spec fn all_zero_demand(s: Seq<ChargingNeed>) -> bool {
    forall|i: int| 0 <= i < s.len() ==> (#[trigger] s[i]).charge_m == 0
}

/// Whatever is drawn, a distribution that only offers zero charges samples a
/// zero demand.
pub proof fn lemma_sample_zero_demand(s: Seq<ChargingNeed>, draw: int, acc: int)
    requires
        all_zero_demand(s),
    ensures
        sample_from(s, draw, acc) == 0,
    decreases s.len(),
{
    if s.len() == 0 {
    } else if s.len() == 1 || acc + s[0].prob_ppm > draw {
        assert(s[0].charge_m == 0);
    } else {
        assert forall|i: int| 0 <= i < s.drop_first().len() implies (#[trigger] s.drop_first()[i])
            .charge_m == 0 by {
            assert(s.drop_first()[i] == s[i + 1]);
        }
        lemma_sample_zero_demand(s.drop_first(), draw, acc + s[0].prob_ppm);
    }
}

/// Mean of the weighted demands of a distribution, scaled by `PROB_SCALE`:
/// the sum of probability mass times charged range over all buckets, in
/// (parts per million)-meters.
pub open spec fn weighted_sum(s: Seq<ChargingNeed>) -> int
    decreases s.len(),
{
    if s.len() == 0 {
        0
    } else {
        weighted_sum(s.drop_last()) + s.last().prob_ppm * s.last().charge_m
    }
}

/// A distribution over which sums and means can be taken without overflow:
/// its total probability mass is at most certainty and no bucket asks for
/// more range than the single-EV cap.
pub open spec fn valid_distribution(s: Seq<ChargingNeed>) -> bool {
    &&& prob_sum(s) <= PROB_SCALE
    &&& forall|i: int| 0 <= i < s.len() ==> (#[trigger] s[i]).charge_m <= MAX_DISTANCE_M
}

/// Cumulative probability mass and cumulative weighted demand both grow by
/// one bucket's contribution per bucket.
pub proof fn lemma_take_bucket_step(s: Seq<ChargingNeed>, k: int)
    requires
        0 <= k < s.len(),
    ensures
        prob_sum(s.take(k + 1)) == prob_sum(s.take(k)) + s[k].prob_ppm,
        weighted_sum(s.take(k + 1)) == weighted_sum(s.take(k)) + s[k].prob_ppm * s[k].charge_m,
{
    assert(s.take(k + 1).drop_last() =~= s.take(k));
    assert(s.take(k + 1).last() == s[k]);
}

/// Cumulative probability mass is monotone in the number of buckets taken.
pub proof fn lemma_prob_take_monotone(s: Seq<ChargingNeed>, i: int, j: int)
    requires
        0 <= i <= j <= s.len(),
    ensures
        prob_sum(s.take(i)) <= prob_sum(s.take(j)),
    decreases j - i,
{
    if i < j {
        lemma_take_bucket_step(s, j - 1);
        lemma_prob_take_monotone(s, i, j - 1);
    }
}

/// Calculates the mean value of the charged distance for the given
/// distribution, scaled by `PROB_SCALE`: dividing the result by `PROB_SCALE`
/// gives the expected charging demand per visit in meters.
pub fn to_mean(charge_probabilities: &ChargeProbabilities) -> (r: u64)
    requires
        valid_distribution(charge_probabilities@),
    ensures
        r as int == weighted_sum(charge_probabilities@),
{
    let ghost s = charge_probabilities@;
    let n = charge_probabilities.len();
    let mut acc: u64 = 0;
    let mut i: usize = 0;
    proof {
        assert(s.take(0) =~= Seq::<ChargingNeed>::empty());
    }
    while i < n
        invariant
            n == s.len(),
            s == charge_probabilities@,
            valid_distribution(s),
            i <= n,
            acc as int == weighted_sum(s.take(i as int)),
            acc as int <= prob_sum(s.take(i as int)) * MAX_DISTANCE_M,
            prob_sum(s.take(i as int)) <= PROB_SCALE,
        decreases n - i,
    {
        let ghost pi = prob_sum(s.take(i as int));
        proof {
            lemma_take_bucket_step(s, i as int);
            lemma_prob_take_monotone(s, 0, i as int);
            lemma_prob_take_monotone(s, i + 1, n as int);
            assert(s.take(n as int) =~= s);
            assert(s[i as int].prob_ppm <= PROB_SCALE);
            assert(s[i as int].prob_ppm * s[i as int].charge_m <= s[i as int].prob_ppm
                * MAX_DISTANCE_M) by (nonlinear_arith)
                requires
                    s[i as int].charge_m <= MAX_DISTANCE_M,
                    s[i as int].prob_ppm >= 0,
            ;
            assert((pi + s[i as int].prob_ppm) * MAX_DISTANCE_M == pi * MAX_DISTANCE_M + s[i
                as int].prob_ppm * MAX_DISTANCE_M) by (nonlinear_arith);
            assert(s[i as int].prob_ppm * MAX_DISTANCE_M <= PROB_SCALE * MAX_DISTANCE_M)
                by (nonlinear_arith)
                requires
                    s[i as int].prob_ppm <= PROB_SCALE,
            ;
            assert(pi * MAX_DISTANCE_M >= 0) by (nonlinear_arith)
                requires
                    pi >= 0,
            ;
        }
        let sector = charge_probabilities[i];
        acc = acc + (sector.prob_ppm as u64) * (sector.charge_m as u64);
        i = i + 1;
    }
    proof {
        assert(s.take(n as int) =~= s);
    }
    acc
}

/// Index of the bucket that a draw selects from the suffix `s`, counting from
/// the start of the suffix, after `acc` probability mass was passed over.
pub open spec fn sample_index_from(s: Seq<ChargingNeed>, draw: int, acc: int) -> int
    decreases s.len(),
{
    if s.len() <= 1 {
        0
    } else if acc + s[0].prob_ppm > draw {
        0
    } else {
        1 + sample_index_from(s.drop_first(), draw, acc + s[0].prob_ppm)
    }
}

/// Index of the bucket that a draw selects from a distribution.
pub open spec fn sample_index(s: Seq<ChargingNeed>, draw: int) -> int {
    sample_index_from(s, draw, 0)
}

proof fn lemma_sel_props(s: Seq<ChargingNeed>, draw: int, k: int)
    requires
        0 <= k < s.len(),
        prob_sum(s.take(k)) <= draw,
        draw < prob_sum(s),
    ensures
        k <= k + sample_index_from(s.skip(k), draw, prob_sum(s.take(k))) < s.len(),
        prob_sum(s.take(k + sample_index_from(s.skip(k), draw, prob_sum(s.take(k))))) <= draw,
        draw < prob_sum(s.take(k + sample_index_from(s.skip(k), draw, prob_sum(s.take(k))) + 1)),
        sample_from(s.skip(k), draw, prob_sum(s.take(k))) == s[k + sample_index_from(
            s.skip(k),
            draw,
            prob_sum(s.take(k)),
        )].charge_m,
    decreases s.len() - k,
{
    let acc = prob_sum(s.take(k));
    let suf = s.skip(k);
    assert(suf[0] == s[k]);
    lemma_take_bucket_step(s, k);
    if acc + s[k].prob_ppm > draw {
        assert(sample_index_from(suf, draw, acc) == 0);
    } else {
        assert(s.take(s.len() as int) =~= s);
        if k + 1 == s.len() {
            assert(prob_sum(s.take(k + 1)) == prob_sum(s));
            assert(false);
        }
        assert(suf.drop_first() =~= s.skip(k + 1));
        lemma_sel_props(s, draw, k + 1);
    }
}

/// Demand sampling is exhaustive: over a distribution whose bucket
/// probabilities sum to certainty, every draw below certainty resolves to
/// exactly one bucket, the one whose half-open cumulative-probability window
/// contains the draw, and the sampled demand is that bucket's; a draw of
/// exactly zero resolves to the first bucket with a non-zero probability.
pub proof fn lemma_sampling_exhaustive(s: Seq<ChargingNeed>, draw: int)
    requires
        prob_sum(s) == PROB_SCALE,
        0 <= draw < PROB_SCALE,
    ensures
        0 <= sample_index(s, draw) < s.len(),
        prob_sum(s.take(sample_index(s, draw))) <= draw,
        draw < prob_sum(s.take(sample_index(s, draw) + 1)),
        spec_sample(s, draw) == s[sample_index(s, draw)].charge_m,
        forall|j: int|
            0 <= j < s.len() && (#[trigger] prob_sum(s.take(j))) <= draw && draw < prob_sum(
                s.take(j + 1),
            ) ==> j == sample_index(s, draw),
        draw == 0 ==> s[sample_index(s, draw)].prob_ppm > 0,
        draw == 0 ==> forall|j: int| 0 <= j < sample_index(s, draw) ==> s[j].prob_ppm == 0,
{
    if s.len() == 0 {
        assert(false);
    }
    assert(s.take(0) =~= Seq::<ChargingNeed>::empty());
    assert(prob_sum(s.take(0)) == 0);
    assert(s.skip(0) =~= s);
    lemma_sel_props(s, draw, 0);
    let idx = sample_index(s, draw);
    assert forall|j: int|
        0 <= j < s.len() && (#[trigger] prob_sum(s.take(j))) <= draw && draw < prob_sum(
            s.take(j + 1),
        ) implies j == idx by {
        if j < idx {
            lemma_prob_take_monotone(s, j + 1, idx);
        }
        if idx < j {
            lemma_prob_take_monotone(s, idx + 1, j);
        }
    }
    if draw == 0 {
        lemma_prob_take_monotone(s, 0, idx);
        lemma_take_bucket_step(s, idx);
        assert forall|j: int| 0 <= j < idx implies s[j].prob_ppm == 0 by {
            lemma_prob_take_monotone(s, 0, j);
            lemma_take_bucket_step(s, j);
            lemma_prob_take_monotone(s, j + 1, idx);
        }
    }
}

} // verus!
