use vstd::prelude::*;

verus! {

/// A histogram with a fixed number of buckets, each counting how often a
/// value falling in it was recorded.
pub struct Histogram {
    buckets: Vec<u64>,
}

impl View for Histogram {
    type V = Seq<u64>;

    /// The counts of the buckets, in bucket order.
    closed spec fn view(&self) -> Seq<u64> {
        self.buckets@
    }
}

impl Histogram {
    /// Creates a histogram with `buckets` empty buckets.
    pub fn new(buckets: u64) -> (h: Self)
        requires
            buckets <= usize::MAX,
        ensures
            h@ == Seq::new(buckets as nat, |i: int| 0u64),
    {
        let n = buckets as usize;
        let mut counts: Vec<u64> = Vec::new();
        let mut i: usize = 0;
        while i < n
            invariant
                i <= n,
                n == buckets,
                counts@ == Seq::new(i as nat, |j: int| 0u64),
            decreases n - i,
        {
            counts.push(0);
            i = i + 1;
        }
        Histogram { buckets: counts }
    }

    /// Returns the count of a bucket.
    pub fn get(&self, bucket: u64) -> (count: u64)
        requires
            bucket < self@.len(),
        ensures
            count == self@[bucket as int],
    {
        let n = self.buckets.len();
        assert(bucket < n);
        self.buckets[bucket as usize]
    }

    /// Clears a single bucket.
    pub fn remove(&mut self, bucket: u64)
        requires
            bucket < old(self)@.len(),
        ensures
            final(self)@ == old(self)@.update(bucket as int, 0u64),
    {
        let n = self.buckets.len();
        assert(bucket < n);
        self.buckets.set(bucket as usize, 0);
    }

    /// Counts one more value in a bucket.
    pub fn increment(&mut self, bucket: u64)
        requires
            bucket < old(self)@.len(),
            old(self)@[bucket as int] < u64::MAX,
        ensures
            final(self)@ == old(self)@.update(bucket as int, (old(self)@[bucket as int] + 1) as u64),
    {
        let n = self.buckets.len();
        assert(bucket < n);
        let i = bucket as usize;
        let count = self.buckets[i];
        self.buckets.set(i, count + 1);
    }

    /// Clears every bucket, keeping their number.
    pub fn reset(&mut self)
        ensures
            final(self)@ == Seq::new(old(self)@.len(), |i: int| 0u64),
    {
        let n = self.buckets.len();
        let mut i: usize = 0;
        while i < n
            invariant
                i <= n,
                n == self.buckets@.len(),
                n == old(self)@.len(),
                forall|j: int| 0 <= j < i ==> self.buckets@[j] == 0u64,
            decreases n - i,
        {
            self.buckets.set(i, 0);
            i = i + 1;
        }
        assert(self.buckets@ =~= Seq::new(old(self)@.len(), |i: int| 0u64));
    }

    /// Returns the counts of all buckets, in bucket order.
    pub fn iter(&self) -> (counts: Vec<u64>)
        ensures
            counts@ == self@,
    {
        let mut counts: Vec<u64> = Vec::new();
        let mut i: usize = 0;
        while i < self.buckets.len()
            invariant
                i <= self.buckets@.len(),
                counts@ == self.buckets@.take(i as int),
            decreases self.buckets@.len() - i,
        {
            counts.push(self.buckets[i]);
            i = i + 1;
            assert(counts@ =~= self.buckets@.take(i as int));
        }
        assert(self.buckets@.take(i as int) =~= self.buckets@);
        counts
    }
}

} // verus!
