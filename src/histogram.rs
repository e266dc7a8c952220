use vstd::prelude::*;

verus! {

/// How many entries of `bytes` equal `value`.
pub open spec fn occurrences(bytes: Seq<u8>, value: int) -> nat
    decreases bytes.len(),
{
    if bytes.len() == 0 {
        0
    } else {
        occurrences(bytes.drop_last(), value) + if bytes.last() as int == value {
            1nat
        } else {
            0nat
        }
    }
}

/// The byte-frequency distribution of `bytes`: one bucket per byte value,
/// bucket `v` holding the number of bytes equal to `v`.
pub open spec fn frequencies(bytes: Seq<u8>) -> Seq<nat> {
    Seq::new(256, |v: int| occurrences(bytes, v))
}

/// Sum of all entries of `counts`.
pub open spec fn sum_of(counts: Seq<nat>) -> nat
    decreases counts.len(),
{
    if counts.len() == 0 {
        0
    } else {
        sum_of(counts.drop_last()) + counts.last()
    }
}

/// Number of entries of `counts` that are not zero.
pub open spec fn nonzero_count(counts: Seq<nat>) -> nat
    decreases counts.len(),
{
    if counts.len() == 0 {
        0
    } else {
        nonzero_count(counts.drop_last()) + if counts.last() > 0 {
            1nat
        } else {
            0nat
        }
    }
}

/// A value never occurs more often than the sequence is long.
proof fn lemma_occurrences_bounded(bytes: Seq<u8>, value: int)
    ensures
        occurrences(bytes, value) <= bytes.len(),
    decreases bytes.len(),
{
    if bytes.len() > 0 {
        lemma_occurrences_bounded(bytes.drop_last(), value);
    }
}

/// Appending a byte adds one to its own bucket and leaves the others alone.
proof fn lemma_frequencies_push(bytes: Seq<u8>, b: u8)
    ensures
        frequencies(bytes.push(b)) == frequencies(bytes).update(
            b as int,
            frequencies(bytes)[b as int] + 1,
        ),
{
    assert(bytes.push(b).drop_last() =~= bytes);
    assert(frequencies(bytes.push(b)) =~= frequencies(bytes).update(
        b as int,
        frequencies(bytes)[b as int] + 1,
    ));
}

/// Adding one to an entry adds one to the sum.
proof fn lemma_sum_of_increment(counts: Seq<nat>, k: int)
    requires
        0 <= k < counts.len(),
    ensures
        sum_of(counts.update(k, counts[k] + 1)) == sum_of(counts) + 1,
    decreases counts.len(),
{
    let bumped = counts.update(k, counts[k] + 1);
    if k == counts.len() - 1 {
        assert(bumped.drop_last() =~= counts.drop_last());
    } else {
        assert(bumped.drop_last() =~= counts.drop_last().update(k, counts[k] + 1));
        lemma_sum_of_increment(counts.drop_last(), k);
    }
}

/// The buckets of a histogram add up to the number of bytes counted.
pub proof fn lemma_total_is_length(bytes: Seq<u8>)
    ensures
        sum_of(frequencies(bytes)) == bytes.len(),
    decreases bytes.len(),
{
    if bytes.len() == 0 {
        lemma_empty_is_all_zero();
        lemma_sum_of_zeros(frequencies(bytes));
    } else {
        let rest = bytes.drop_last();
        let b = bytes.last();
        assert(bytes =~= rest.push(b));
        lemma_total_is_length(rest);
        lemma_frequencies_push(rest, b);
        lemma_sum_of_increment(frequencies(rest), b as int);
    }
}

proof fn lemma_sum_of_zeros(counts: Seq<nat>)
    requires
        forall|i: int| 0 <= i < counts.len() ==> counts[i] == 0,
    ensures
        sum_of(counts) == 0,
    decreases counts.len(),
{
    if counts.len() > 0 {
        lemma_sum_of_zeros(counts.drop_last());
    }
}

/// An empty input leaves every bucket at zero.
pub proof fn lemma_empty_is_all_zero()
    ensures
        forall|v: int| 0 <= v < 256 ==> #[trigger] frequencies(Seq::<u8>::empty())[v] == 0,
{
}

/// No more buckets are in use than there are entries.
pub proof fn lemma_nonzero_count_bounded(counts: Seq<nat>)
    ensures
        nonzero_count(counts) <= counts.len(),
    decreases counts.len(),
{
    if counts.len() > 0 {
        lemma_nonzero_count_bounded(counts.drop_last());
    }
}

/// A histogram never has more than 256 buckets in use, nor more than the
/// number of bytes counted.
pub proof fn lemma_unique_values_bounded(bytes: Seq<u8>)
    ensures
        nonzero_count(frequencies(bytes)) <= 256,
        nonzero_count(frequencies(bytes)) <= bytes.len(),
{
    lemma_nonzero_count_bounded(frequencies(bytes));
    lemma_nonzero_count_le_sum(frequencies(bytes));
    lemma_total_is_length(bytes);
}

proof fn lemma_nonzero_count_le_sum(counts: Seq<nat>)
    ensures
        nonzero_count(counts) <= sum_of(counts),
    decreases counts.len(),
{
    if counts.len() > 0 {
        lemma_nonzero_count_le_sum(counts.drop_last());
    }
}

/// The counters of a histogram: 256 of them, one per byte value.
pub struct Histogram {
    counts: Vec<u32>,
}

impl View for Histogram {
    type V = Seq<nat>;

    /// Bucket `v` is the number of bytes equal to `v` that were counted.
    closed spec fn view(&self) -> Seq<nat> {
        self.counts@.map_values(|c: u32| c as nat)
    }
}

impl Histogram {
    #[verifier::type_invariant]
    spec fn has_all_buckets(self) -> bool {
        self.counts@.len() == 256
    }

    /// Counts every byte value of `bytes` in one pass.
    pub fn from_bytes(bytes: &[u8]) -> (h: Histogram)
        requires
            bytes@.len() <= u32::MAX,
        ensures
            h@ == frequencies(bytes@),
    {
        let empty = Self::new();
        proof {
            use_type_invariant(&empty);
        }
        let mut counts = empty.counts;
        assert(bytes@.take(0) =~= Seq::<u8>::empty());
        let mut i: usize = 0;
        while i < bytes.len()
            invariant
                i <= bytes@.len(),
                bytes@.len() <= u32::MAX,
                counts@.len() == 256,
                counts@.map_values(|c: u32| c as nat) == frequencies(bytes@.take(i as int)),
            decreases bytes@.len() - i,
        {
            let b = bytes[i];
            let ghost seen = bytes@.take(i as int);
            proof {
                assert(bytes@.take(i + 1) =~= seen.push(b));
                lemma_frequencies_push(seen, b);
                lemma_occurrences_bounded(seen, b as int);
                assert(counts@[b as int] as nat == frequencies(seen)[b as int]);
            }
            let c = counts[b as usize];
            counts.set(b as usize, c + 1);
            i = i + 1;
            assert(counts@.map_values(|c: u32| c as nat) =~= frequencies(bytes@.take(i as int)));
        }
        assert(bytes@.take(bytes@.len() as int) =~= bytes@);
        Histogram { counts }
    }

    /// A histogram with every bucket at zero, as for an empty input.
    pub fn new() -> (h: Histogram)
        ensures
            h@ == frequencies(Seq::empty()),
    {
        let mut counts: Vec<u32> = Vec::new();
        let mut v: usize = 0;
        while v < 256
            invariant
                v <= 256,
                counts@.len() == v,
                forall|j: int| 0 <= j < v ==> counts@[j] == 0,
            decreases 256 - v,
        {
            counts.push(0);
            v = v + 1;
        }
        assert(counts@.map_values(|c: u32| c as nat) =~= frequencies(Seq::empty()));
        Histogram { counts }
    }

    /// How many counted bytes equal `value`.
    pub fn count(&self, value: u8) -> (r: u32)
        ensures
            r as nat == self@[value as int],
    {
        proof {
            use_type_invariant(self);
        }
        self.counts[value as usize]
    }

    /// The number of bytes counted: the sum of all buckets.
    pub fn total(&self) -> (r: u64)
        ensures
            r as nat == sum_of(self@),
    {
        proof {
            use_type_invariant(self);
        }
        let mut acc: u64 = 0;
        let mut i: usize = 0;
        while i < 256
            invariant
                i <= 256,
                self.counts@.len() == 256,
                acc as nat == sum_of(self@.take(i as int)),
                acc <= i * 0xffff_ffff,
            decreases 256 - i,
        {
            assert(self@.take(i + 1).drop_last() =~= self@.take(i as int));
            acc = acc + self.counts[i] as u64;
            i = i + 1;
        }
        assert(self@.take(256) =~= self@);
        acc
    }

    /// The number of distinct byte values that occur: the buckets that are not zero.
    pub fn unique_values(&self) -> (r: usize)
        ensures
            r as nat == nonzero_count(self@),
            r <= 256,
    {
        proof {
            use_type_invariant(self);
        }
        let mut n: usize = 0;
        let mut i: usize = 0;
        while i < 256
            invariant
                i <= 256,
                self.counts@.len() == 256,
                n as nat == nonzero_count(self@.take(i as int)),
                n <= i,
            decreases 256 - i,
        {
            assert(self@.take(i + 1).drop_last() =~= self@.take(i as int));
            if self.counts[i] > 0 {
                n = n + 1;
            }
            i = i + 1;
        }
        assert(self@.take(256) =~= self@);
        n
    }

    /// The largest bucket: how often the most frequent byte value occurs.
    pub fn max_frequency(&self) -> (r: u32)
        ensures
            exists|v: int| 0 <= v < 256 && self@[v] == r as nat,
            forall|v: int| 0 <= v < 256 ==> self@[v] <= r as nat,
    {
        proof {
            use_type_invariant(self);
        }
        let mut best: u32 = self.counts[0];
        let mut at: usize = 0;
        let mut i: usize = 1;
        while i < 256
            invariant
                1 <= i <= 256,
                self.counts@.len() == 256,
                at < i,
                self.counts@[at as int] == best,
                forall|v: int| 0 <= v < i ==> self.counts@[v] <= best,
            decreases 256 - i,
        {
            if self.counts[i] > best {
                best = self.counts[i];
                at = i;
            }
            i = i + 1;
        }
        assert(self@[at as int] == best as nat);
        best
    }
}

} // verus!
