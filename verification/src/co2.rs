use crate::histogram::Histogram;
use vstd::prelude::*;

verus! {

/// The lower bound of the histogram. All values up to this value are tracked in
/// the first bucket.
pub const LOW: u64 = 400;

/// The upper bound of the histogram. All values above this value are tracked in
/// the last bucket.
pub const HIGH: u64 = 1200;

/// The size/ppm per bucket.
pub const SIZE: u64 = 25;

/// The number of buckets to use for the CO2 histogram.
pub const BUCKETS: u64 = ((HIGH - LOW) / SIZE) + 1;

/// The last/maximum bucket.
pub const MAX_BUCKET: u64 = BUCKETS - 1;

/// The bucket a CO2 value (in ppm) is counted in: values up to `LOW` go to the
/// first bucket, values above `HIGH` to the last one, and values in between
/// to the bucket whose value is nearest to them.
pub open spec fn spec_co2_to_bucket(co2: u64) -> u64 {
    if co2 <= LOW {
        0
    } else if co2 <= HIGH {
        (((co2 - LOW) + (SIZE - 1) / 2) / (SIZE as int)) as u64
    } else {
        MAX_BUCKET
    }
}

/// The CO2 value (in ppm) that a bucket stands for.
pub open spec fn spec_bucket_to_co2(bucket: u64) -> int {
    LOW + bucket * SIZE
}

/// The sum, over all buckets, of the bucket's CO2 value times its count.
pub open spec fn weighted_sum(counts: Seq<u64>) -> int
    decreases counts.len(),
{
    if counts.len() == 0 {
        0
    } else {
        weighted_sum(counts.drop_last()) + spec_bucket_to_co2((counts.len() - 1) as u64)
            * counts.last()
    }
}

/// The number of values counted over all buckets.
pub open spec fn sample_count(counts: Seq<u64>) -> int
    decreases counts.len(),
{
    if counts.len() == 0 {
        0
    } else {
        sample_count(counts.drop_last()) + counts.last()
    }
}

/// The mean of the counted values, each taken at its bucket's value; zero
/// when nothing was counted.
pub open spec fn histogram_mean(counts: Seq<u64>) -> int {
    if sample_count(counts) > 0 {
        weighted_sum(counts) / sample_count(counts)
    } else {
        0
    }
}

/// The CO2 estimate derived from a histogram: its mean, rounded to the value
/// of the nearest bucket.
pub open spec fn estimate(counts: Seq<u64>) -> int {
    spec_bucket_to_co2(spec_co2_to_bucket(histogram_mean(counts) as u64))
}

pub fn co2_to_bucket(co2: u64) -> (bucket: u64)
    ensures
        bucket == spec_co2_to_bucket(co2),
        bucket <= MAX_BUCKET,
{
    if co2 <= LOW {
        0
    } else if co2 <= HIGH {
        // Values such as 740 are rounded down to 700, while values such as 760 are
        // rounded up to 800. This ensures CO2 values are assigned to more accurate
        // buckets, instead of always being assigned to the lower bucket (as
        // integer division rounds down).
        ((co2 - LOW) + ((SIZE - 1) / 2)) / SIZE
    } else {
        MAX_BUCKET
    }
}

pub fn bucket_to_co2(bucket: u64) -> (co2: u64)
    requires
        spec_bucket_to_co2(bucket) <= u64::MAX,
    ensures
        co2 == spec_bucket_to_co2(bucket),
{
    LOW + (bucket * SIZE)
}

/// Every prefix of a histogram weighs at most as much as the whole.
proof fn lemma_weighted_sum_prefix(counts: Seq<u64>, k: int)
    requires
        0 <= k <= counts.len(),
    ensures
        0 <= weighted_sum(counts.take(k)) <= weighted_sum(counts),
        0 <= sample_count(counts.take(k)) <= sample_count(counts),
    decreases counts.len(),
{
    if counts.len() == 0 {
        assert(counts.take(k) =~= counts);
    } else if k == counts.len() {
        assert(counts.take(k) =~= counts);
        lemma_weighted_sum_prefix(counts.drop_last(), k - 1);
        assert(counts.drop_last().take(k - 1) =~= counts.drop_last());
        let n = counts.len() - 1;
        assert(spec_bucket_to_co2(n as u64) * counts.last() >= 0) by (nonlinear_arith)
            requires
                spec_bucket_to_co2(n as u64) >= 0,
                counts.last() >= 0,
        ;
    } else {
        lemma_weighted_sum_prefix(counts.drop_last(), k);
        assert(counts.drop_last().take(k) =~= counts.take(k));
        let n = counts.len() - 1;
        assert(spec_bucket_to_co2(n as u64) * counts.last() >= 0) by (nonlinear_arith)
            requires
                spec_bucket_to_co2(n as u64) >= 0,
                counts.last() >= 0,
        ;
    }
}

/// Law: the value of a bucket is counted in that very bucket.
pub proof fn lemma_bucket_round_trip(bucket: u64)
    requires
        bucket <= MAX_BUCKET,
    ensures
        spec_co2_to_bucket(spec_bucket_to_co2(bucket) as u64) == bucket,
{
}

/// Law: a higher CO2 value never lands in a lower bucket.
pub proof fn lemma_bucket_monotone(a: u64, b: u64)
    requires
        a <= b,
    ensures
        spec_co2_to_bucket(a) <= spec_co2_to_bucket(b),
{
    if LOW < a && b <= HIGH {
        let x = (a - LOW) + 12;
        let y = (b - LOW) + 12;
        assert(x / 25 <= y / 25) by (nonlinear_arith)
            requires
                0 <= x <= y,
        ;
    } else if LOW < a && a <= HIGH {
        let x = (a - LOW) + 12;
        assert(x / 25 <= 32) by (nonlinear_arith)
            requires
                0 <= x <= 812,
        ;
    } else if a <= LOW && LOW < b && b <= HIGH {
        let y = (b - LOW) + 12;
        assert(y / 25 >= 0) by (nonlinear_arith)
            requires
                0 <= y,
        ;
    }
}

/// Law: a value between `LOW` and `HIGH` lands in the bucket whose value is
/// nearest to it, less than half a bucket away.
pub proof fn lemma_bucket_nearest(co2: u64)
    requires
        LOW <= co2 <= HIGH,
    ensures
        co2 - 12 <= spec_bucket_to_co2(spec_co2_to_bucket(co2)) <= co2 + 12,
        2 * (spec_bucket_to_co2(spec_co2_to_bucket(co2)) - co2) < SIZE,
        2 * (co2 - spec_bucket_to_co2(spec_co2_to_bucket(co2))) < SIZE,
{
    if co2 > LOW {
        let x = (co2 - LOW) + 12;
        let q = x / 25;
        assert(25 * q <= x < 25 * q + 25) by (nonlinear_arith)
            requires
                x >= 0,
                q == x / 25,
        ;
    }
}

/// Law: the estimate always is the value of one of the buckets, between
/// `LOW` and `HIGH`.
pub proof fn lemma_estimate_on_grid(counts: Seq<u64>)
    ensures
        LOW <= estimate(counts) <= HIGH,
        (estimate(counts) - LOW) % (SIZE as int) == 0,
        exists|b: u64| b <= MAX_BUCKET && estimate(counts) == spec_bucket_to_co2(b),
{
    let b = spec_co2_to_bucket(histogram_mean(counts) as u64);
    lemma_bucket_monotone(histogram_mean(counts) as u64, u64::MAX);
    assert(estimate(counts) == spec_bucket_to_co2(b));
}

/// Whether all counted samples fall into bucket `b`.
pub open spec fn only_in_bucket(counts: Seq<u64>, b: int) -> bool {
    forall|i: int| 0 <= i < counts.len() && i != b ==> counts[i] == 0
}

proof fn lemma_single_bucket_sums(counts: Seq<u64>, b: int)
    requires
        0 <= b,
        only_in_bucket(counts, b),
    ensures
        weighted_sum(counts) == if b < counts.len() {
            spec_bucket_to_co2(b as u64) * counts[b]
        } else {
            0
        },
        sample_count(counts) == if b < counts.len() {
            counts[b] as int
        } else {
            0
        },
    decreases counts.len(),
{
    if counts.len() > 0 {
        let rest = counts.drop_last();
        assert forall|i: int| 0 <= i < rest.len() && i != b implies rest[i] == 0 by {
            assert(rest[i] == counts[i]);
        }
        lemma_single_bucket_sums(rest, b);
        let last = counts.len() - 1;
        if b < rest.len() {
            assert(rest[b] == counts[b]);
            assert(counts[last] == 0);
            let r = spec_bucket_to_co2(last as u64);
            let z = counts.last() as int;
            assert(r * z == 0) by (nonlinear_arith)
                requires
                    z == 0,
            ;
        } else if b == last {
            assert(counts.last() == counts[b]);
        } else {
            assert(counts[last] == 0);
            let r = spec_bucket_to_co2(last as u64);
            let z = counts.last() as int;
            assert(r * z == 0) by (nonlinear_arith)
                requires
                    z == 0,
            ;
        }
    }
}

/// Law: when every sample of a period falls into one bucket, the estimate is
/// that bucket's value.
pub proof fn lemma_estimate_single_bucket(counts: Seq<u64>, b: u64)
    requires
        b < counts.len(),
        b <= MAX_BUCKET,
        counts[b as int] > 0,
        only_in_bucket(counts, b as int),
    ensures
        estimate(counts) == spec_bucket_to_co2(b),
{
    lemma_single_bucket_sums(counts, b as int);
    let n = counts[b as int] as int;
    let rep = spec_bucket_to_co2(b);
    assert((rep * n) / n == rep) by (nonlinear_arith)
        requires
            n > 0,
    ;
    assert(histogram_mean(counts) == rep);
    lemma_bucket_round_trip(b);
}

/// The bucket counts after recording `samples`, in order, into empty
/// buckets.
pub open spec fn counts_of(samples: Seq<u64>) -> Seq<u64>
    decreases samples.len(),
{
    if samples.len() == 0 {
        Seq::new(BUCKETS as nat, |i: int| 0u64)
    } else {
        let c = counts_of(samples.drop_last());
        let b = spec_co2_to_bucket(samples.last()) as int;
        c.update(b, (c[b] + 1) as u64)
    }
}

/// The sum of the samples, each taken at the value of its bucket.
pub open spec fn bucketed_sum(samples: Seq<u64>) -> int
    decreases samples.len(),
{
    if samples.len() == 0 {
        0
    } else {
        bucketed_sum(samples.drop_last()) + spec_bucket_to_co2(spec_co2_to_bucket(samples.last()))
    }
}

/// The mean of the samples, each taken at the value of its bucket (integer
/// division); zero without samples.
pub open spec fn bucketed_mean(samples: Seq<u64>) -> int {
    if samples.len() > 0 {
        bucketed_sum(samples) / (samples.len() as int)
    } else {
        0
    }
}

proof fn lemma_zero_counts(n: nat)
    ensures
        weighted_sum(Seq::new(n, |i: int| 0u64)) == 0,
        sample_count(Seq::new(n, |i: int| 0u64)) == 0,
    decreases n,
{
    if n > 0 {
        let z = Seq::new(n, |i: int| 0u64);
        assert(z.drop_last() =~= Seq::new((n - 1) as nat, |i: int| 0u64));
        lemma_zero_counts((n - 1) as nat);
        let r = spec_bucket_to_co2((n - 1) as u64);
        assert(r * 0 == 0) by (nonlinear_arith);
    }
}

proof fn lemma_update_sums(c: Seq<u64>, b: int, v: u64)
    requires
        0 <= b < c.len(),
    ensures
        weighted_sum(c.update(b, v)) == weighted_sum(c) + spec_bucket_to_co2(b as u64) * (v
            - c[b]),
        sample_count(c.update(b, v)) == sample_count(c) + v - c[b],
    decreases c.len(),
{
    let u = c.update(b, v);
    let n = c.len() - 1;
    let r = spec_bucket_to_co2(b as u64);
    if b == n {
        assert(u.drop_last() =~= c.drop_last());
        assert(r * c[b] + r * (v - c[b]) == r * v) by (nonlinear_arith);
    } else {
        assert(u.drop_last() =~= c.drop_last().update(b, v));
        lemma_update_sums(c.drop_last(), b, v);
    }
}

proof fn lemma_counts_of_sums(samples: Seq<u64>)
    requires
        samples.len() <= u64::MAX,
    ensures
        counts_of(samples).len() == BUCKETS,
        weighted_sum(counts_of(samples)) == bucketed_sum(samples),
        sample_count(counts_of(samples)) == samples.len(),
        forall|i: int| 0 <= i < BUCKETS ==> #[trigger] counts_of(samples)[i] <= samples.len(),
    decreases samples.len(),
{
    if samples.len() == 0 {
        lemma_zero_counts(BUCKETS as nat);
    } else {
        let rest = samples.drop_last();
        lemma_counts_of_sums(rest);
        let c = counts_of(rest);
        let x = samples.last();
        lemma_bucket_monotone(x, u64::MAX);
        let b = spec_co2_to_bucket(x) as int;
        assert(c[b] <= rest.len());
        let v = (c[b] + 1) as u64;
        lemma_update_sums(c, b, v);
        let r = spec_bucket_to_co2(b as u64);
        assert(r * (v - c[b]) == r) by (nonlinear_arith)
            requires
                v - c[b] == 1,
        ;
        assert(b as u64 == spec_co2_to_bucket(x));
    }
}

/// Law: the estimate from the samples recorded since the last update is
/// their mean, each sample taken at its bucket's value, rounded to the
/// nearest bucket; without samples it is `LOW`.
pub proof fn lemma_estimate_is_bucketed_mean(samples: Seq<u64>)
    requires
        samples.len() <= u64::MAX,
    ensures
        estimate(counts_of(samples)) == spec_bucket_to_co2(
            spec_co2_to_bucket(bucketed_mean(samples) as u64),
        ),
        samples.len() == 0 ==> estimate(counts_of(samples)) == LOW,
{
    lemma_counts_of_sums(samples);
}

/// An estimate of the CO2 level (in parts-per-million) of a room, derived
/// from periodically sampled values.
pub struct Co2 {
    /// The histogram used to keep track of how many times certain CO2 levels
    /// are reported.
    pub histogram: Histogram,
    /// The current estimated CO2 level in parts-per-million (ppm).
    pub value: u64,
    /// The samples recorded since the last update, in order.
    pub recorded: Ghost<Seq<u64>>,
}

impl Co2 {
    /// The counts of the samples gathered since the last update, per bucket.
    pub open spec fn samples(&self) -> Seq<u64> {
        self.histogram@
    }

    /// The samples recorded since the last update, in order.
    pub open spec fn recorded(&self) -> Seq<u64> {
        self.recorded@
    }

    /// The counts are those of the recorded samples.
    pub open spec fn counts_recorded(&self) -> bool {
        &&& self.samples() == counts_of(self.recorded@)
        &&& sample_count(self.samples()) == self.recorded@.len()
    }

    /// The histogram has one count per bucket, and counts the samples
    /// recorded since the last update.
    pub open spec fn wf(&self) -> bool {
        &&& self.samples().len() == BUCKETS
        &&& self.counts_recorded()
    }

    /// The current estimate, in ppm.
    pub open spec fn level(&self) -> u64 {
        self.value
    }

    pub fn new() -> (co2: Self)
        ensures
            co2.wf(),
            co2.samples() == Seq::new(BUCKETS as nat, |i: int| 0u64),
            co2.recorded() == Seq::<u64>::empty(),
            co2.level() == 0,
    {
        proof {
            lemma_zero_counts(BUCKETS as nat);
        }
        Co2 { histogram: Histogram::new(BUCKETS), value: 0, recorded: Ghost(Seq::empty()) }
    }

    /// Replaces the estimate by the mean of the samples gathered since the
    /// last update (rounded to the nearest bucket value), then forgets those
    /// samples. Without samples the estimate becomes `LOW`. In terms of the
    /// recorded samples: the estimate is their mean, each taken at its
    /// bucket's value, rounded to the nearest bucket value.
    pub fn update(&mut self)
        requires
            old(self).wf(),
            weighted_sum(old(self).samples()) <= u64::MAX,
            sample_count(old(self).samples()) <= u64::MAX,
        ensures
            final(self).wf(),
            final(self).level() == estimate(old(self).samples()),
            final(self).level() == spec_bucket_to_co2(
                spec_co2_to_bucket(bucketed_mean(old(self).recorded()) as u64),
            ),
            final(self).samples() == Seq::new(BUCKETS as nat, |i: int| 0u64),
            final(self).recorded() == Seq::<u64>::empty(),
    {
        proof {
            lemma_estimate_is_bucketed_mean(self.recorded@);
            lemma_zero_counts(BUCKETS as nat);
        }
        let counts = self.histogram.iter();
        let ghost all = counts@;
        let mut sum: u64 = 0;
        let mut count: u64 = 0;
        let mut i: usize = 0;
        while i < counts.len()
            invariant
                i <= all.len(),
                all == counts@,
                all.len() == BUCKETS,
                weighted_sum(all) <= u64::MAX,
                sample_count(all) <= u64::MAX,
                sum == weighted_sum(all.take(i as int)),
                count == sample_count(all.take(i as int)),
            decreases all.len() - i,
        {
            proof {
                lemma_weighted_sum_prefix(all, i + 1);
                assert(all.take(i + 1).drop_last() =~= all.take(i as int));
            }
            let bucket_count = counts[i];
            let rep = LOW + (i as u64) * SIZE;
            sum = sum + rep * bucket_count;
            count = count + bucket_count;
            i = i + 1;
        }
        assert(all.take(i as int) =~= all);
        let mean = if count > 0 {
            sum / count
        } else {
            0
        };
        self.value = bucket_to_co2(co2_to_bucket(mean));
        self.histogram.reset();
        self.recorded = Ghost(Seq::empty());
    }

    /// Whether updating the estimate stays within `u64` (see `update`).
    pub(crate) fn can_update(&self) -> (fits: bool)
        requires
            self.wf(),
        ensures
            fits == (weighted_sum(self.samples()) <= u64::MAX && sample_count(self.samples())
                <= u64::MAX),
    {
        let counts = self.histogram.iter();
        let ghost all = counts@;
        let mut sum: u128 = 0;
        let mut count: u128 = 0;
        let mut i: usize = 0;
        while i < counts.len()
            invariant
                i <= all.len(),
                all == counts@,
                all == self.samples(),
                all.len() == BUCKETS,
                sum == weighted_sum(all.take(i as int)),
                count == sample_count(all.take(i as int)),
                sum <= u64::MAX,
                count <= u64::MAX,
            decreases all.len() - i,
        {
            proof {
                lemma_weighted_sum_prefix(all, i + 1);
                assert(all.take(i + 1).drop_last() =~= all.take(i as int));
            }
            let bucket_count = counts[i] as u128;
            let rep = (LOW + (i as u64) * SIZE) as u128;
            assert(rep * bucket_count <= 1200 * 0xffff_ffff_ffff_ffffu128) by (nonlinear_arith)
                requires
                    rep <= 1200,
                    bucket_count <= 0xffff_ffff_ffff_ffffu128,
            ;
            sum = sum + rep * bucket_count;
            count = count + bucket_count;
            i = i + 1;
            if sum > u64::MAX as u128 || count > u64::MAX as u128 {
                proof {
                    lemma_weighted_sum_prefix(all, i as int);
                }
                return false;
            }
        }
        assert(all.take(i as int) =~= all);
        true
    }

    /// Whether recording a sample stays within `u64` (see `add`).
    pub(crate) fn can_add(&self, co2: u64) -> (fits: bool)
        requires
            self.wf(),
        ensures
            fits == (self.samples()[spec_co2_to_bucket(co2) as int] < u64::MAX),
    {
        self.histogram.get(co2_to_bucket(co2)) < u64::MAX
    }

    /// Records a sample.
    pub fn add(&mut self, co2: u64)
        requires
            old(self).wf(),
            old(self).samples()[spec_co2_to_bucket(co2) as int] < u64::MAX,
        ensures
            final(self).wf(),
            final(self).level() == old(self).level(),
            final(self).samples() == old(self).samples().update(
                spec_co2_to_bucket(co2) as int,
                (old(self).samples()[spec_co2_to_bucket(co2) as int] + 1) as u64,
            ),
            final(self).recorded() == old(self).recorded().push(co2),
    {
        let b = co2_to_bucket(co2);
        proof {
            let c = self.samples();
            lemma_update_sums(c, b as int, (c[b as int] + 1) as u64);
            assert(self.recorded@.push(co2).drop_last() =~= self.recorded@);
        }
        self.histogram.increment(b);
        self.recorded = Ghost(self.recorded@.push(co2));
    }
}

} // verus!
