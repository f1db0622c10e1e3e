//! The ordered list of buckets and the scan that classifies an input.

use crate::bucket::Bucket;
use vstd::prelude::*;
use vstd::std_specs::cmp::PartialOrdSpec;

verus! {

/// `i` is the position of the first bucket of `buckets` that contains `input`.
pub open spec fn first_match<T: PartialOrd>(buckets: Seq<Bucket<T>>, input: T, i: int) -> bool {
    &&& 0 <= i < buckets.len()
    &&& buckets[i].contains(input)
    &&& forall|j: int| 0 <= j < i ==> !(#[trigger] buckets[j]).contains(input)
}

/// No bucket of `buckets` contains `input`.
pub open spec fn no_match<T: PartialOrd>(buckets: Seq<Bucket<T>>, input: T) -> bool {
    forall|j: int| 0 <= j < buckets.len() ==> !(#[trigger] buckets[j]).contains(input)
}

/// The value that `buckets` gives to `input`: that of the first bucket, in
/// the order of the sequence, that contains `input`; `None` if there is none.
pub open spec fn classify<T: PartialOrd>(buckets: Seq<Bucket<T>>, input: T) -> Option<T> {
    if exists|i: int| first_match(buckets, input, i) {
        Some(buckets[choose|i: int| first_match(buckets, input, i)].value)
    } else {
        None
    }
}

/// A scan of `buckets` from the front can stop at position `i`: the bucket
/// there can accept `input` after every bucket before it has rejected it.
pub open spec fn scan_stops_at<T: PartialOrd>(buckets: Seq<Bucket<T>>, input: T, i: int) -> bool {
    &&& 0 <= i < buckets.len()
    &&& buckets[i].can_accept(input)
    &&& forall|j: int| 0 <= j < i ==> (#[trigger] buckets[j]).can_reject(input)
}

/// `result` is an answer that a scan of `buckets` from the front can give
/// for `input`, whatever the comparisons of `T` return: the value of a bucket
/// at which the scan can stop, or `None` after every bucket has rejected
/// `input`.
///
/// This is stated for every `T`, also for one whose order Verus does not
/// know.
pub open spec fn scan_answers<T: PartialOrd>(
    buckets: Seq<Bucket<T>>,
    input: T,
    result: Option<T>,
) -> bool {
    match result {
        Some(v) => exists|i: int|
            scan_stops_at(buckets, input, i) && (#[trigger] buckets[i]).value == v,
        None => forall|j: int| 0 <= j < buckets.len() ==> (#[trigger] buckets[j]).can_reject(input),
    }
}

/// A `Bucketizer` holds the list of buckets to slot values into, and does the
/// slotting.
///
/// Buckets are tried in the order in which they were added, so one added
/// earlier shadows a later one wherever the two overlap. Nothing is ever
/// reordered, merged or removed.
#[derive(Debug, Clone, PartialEq)]
pub struct Bucketizer<T: PartialOrd + Copy> {
    buckets: Vec<Bucket<T>>,
}

impl<T: PartialOrd + Copy> View for Bucketizer<T> {
    type V = Seq<Bucket<T>>;

    /// The buckets, in the order in which they were added.
    closed spec fn view(&self) -> Seq<Bucket<T>> {
        self.buckets@
    }
}

impl<T: PartialOrd + Copy> Bucketizer<T> {
    /// Creates a `Bucketizer` with no buckets.
    pub fn new() -> (r: Self)
        ensures
            r@ == Seq::<Bucket<T>>::empty(),
    {
        Bucketizer { buckets: Vec::new() }
    }

    /// Adds the bucket `[min, max)` with the value `value` behind the buckets
    /// that are already there, and hands the `Bucketizer` back so that calls
    /// can be chained.
    ///
    /// Nothing is asked of the bounds: a bucket whose `min` is not below its
    /// `max` is taken as it is and contains nothing.
    pub fn bucket(self, min: Option<T>, max: Option<T>, value: T) -> (r: Self)
        ensures
            r@ == self@.push((Bucket { min, max, value })),
    {
        let mut new = self;
        new.buckets.push(Bucket { min, max, value });
        new
    }

    /// Gives the value of the first bucket, in the order in which the buckets
    /// were added, that contains `input`; `None` if no bucket contains it.
    ///
    /// The first clause holds for every `T`. The second says what the result
    /// is where Verus knows the order of `T`, as it does for the integers.
    pub fn bucketize(&self, input: T) -> (r: Option<T>)
        ensures
            scan_answers(self@, input, r),
            T::obeys_partial_cmp_spec() ==> r == classify(self@, input),
            self@.len() == 0 ==> r is None,
    {
        let n: usize = self.buckets.len();
        let mut i: usize = 0;
        while i < n
            invariant
                n == self@.len(),
                i <= n,
                forall|j: int| 0 <= j < i ==> (#[trigger] self@[j]).can_reject(input),
            decreases n - i,
        {
            let bucket = &self.buckets[i];
            let hit = match (bucket.min, bucket.max) {
                (None, None) => true,
                (Some(min), None) => input >= min,
                (None, Some(max)) => input < max,
                (Some(min), Some(max)) => input >= min && input < max,
            };
            if hit {
                proof {
                    if T::obeys_partial_cmp_spec() {
                        lemma_scan_is_classify(self@, input, Some(bucket.value));
                    }
                }
                return Some(bucket.value);
            }
            i += 1;
        }
        proof {
            if T::obeys_partial_cmp_spec() {
                lemma_scan_is_classify(self@, input, None);
            }
        }
        None
    }
}

/// Where Verus knows the order of `T`, a scan from the front has one answer
/// only, the value that `classify` gives.
pub proof fn lemma_scan_is_classify<T: PartialOrd>(
    buckets: Seq<Bucket<T>>,
    input: T,
    result: Option<T>,
)
    requires
        T::obeys_partial_cmp_spec(),
        scan_answers(buckets, input, result),
    ensures
        result == classify(buckets, input),
{
    assert forall|j: int| 0 <= j < buckets.len() implies (buckets[j].can_accept(input)
        ==> buckets[j].contains(input)) && (buckets[j].can_reject(input) ==> !buckets[j].contains(
        input,
    )) by {
        buckets[j].lemma_answers_follow_rule(input);
    }
    if let Some(v) = result {
        let i = choose|i: int|
            scan_stops_at(buckets, input, i) && (#[trigger] buckets[i]).value == v;
        lemma_first_match_is_unique(
            buckets,
            input,
            i,
            choose|k: int| first_match(buckets, input, k),
        );
    }
}

/// At most one position is that of the first bucket that contains `input`.
pub proof fn lemma_first_match_is_unique<T: PartialOrd>(
    buckets: Seq<Bucket<T>>,
    input: T,
    i: int,
    k: int,
)
    requires
        first_match(buckets, input, i),
        first_match(buckets, input, k),
    ensures
        i == k,
{
    if i < k {
        assert(!buckets[i].contains(input));
    } else if k < i {
        assert(!buckets[k].contains(input));
    }
}

} // verus!
