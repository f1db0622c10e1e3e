//! What holds of every list of buckets.
//!
//! The laws are stated over [`classify`] and [`Bucket::contains`], which is
//! what [`Bucketizer::bucketize`](crate::bucketizer::Bucketizer::bucketize)
//! promises for every type whose order Verus knows.

use crate::bucket::Bucket;
use crate::bucketizer::classify;
use crate::bucketizer::first_match;
use crate::bucketizer::lemma_first_match_is_unique;
use crate::bucketizer::no_match;
use vstd::laws_cmp::obeys_partial_cmp_spec_properties;
use vstd::prelude::*;
use vstd::std_specs::cmp::PartialOrdIs;

verus! {

/// If the bucket at `j` contains `input`, then some bucket at or before `j`
/// is the first to contain it.
pub proof fn lemma_match_has_first<T: PartialOrd>(buckets: Seq<Bucket<T>>, input: T, j: int)
    requires
        0 <= j < buckets.len(),
        buckets[j].contains(input),
    ensures
        exists|i: int| 0 <= i <= j && first_match(buckets, input, i),
    decreases j,
{
    if exists|k: int| 0 <= k < j && (#[trigger] buckets[k]).contains(input) {
        let k = choose|k: int| 0 <= k < j && (#[trigger] buckets[k]).contains(input);
        lemma_match_has_first(buckets, input, k);
        let i = choose|i: int| 0 <= i <= k && first_match(buckets, input, i);
        assert(0 <= i <= j && first_match(buckets, input, i));
    } else {
        assert(first_match(buckets, input, j));
    }
}

/// The first bucket that contains the input decides: if `i` is the position
/// of the first bucket that contains `input`, the result is that bucket's
/// value.
pub proof fn lemma_first_match_decides<T: PartialOrd>(buckets: Seq<Bucket<T>>, input: T, i: int)
    requires
        first_match(buckets, input, i),
    ensures
        classify(buckets, input) == Some(buckets[i].value),
{
    lemma_first_match_is_unique(
        buckets,
        input,
        i,
        choose|k: int| first_match(buckets, input, k),
    );
}

/// The result is `None` exactly when no bucket contains the input.
pub proof fn lemma_none_iff_no_match<T: PartialOrd>(buckets: Seq<Bucket<T>>, input: T)
    ensures
        classify(buckets, input) is None <==> no_match(buckets, input),
{
    if !no_match(buckets, input) {
        let j = choose|j: int| 0 <= j < buckets.len() && (#[trigger] buckets[j]).contains(input);
        lemma_match_has_first(buckets, input, j);
    }
}

/// Order decides between overlapping buckets: where the buckets at `i` and
/// at `j` both contain `input` and `i` comes first, the bucket at `j` is
/// never the one that decides, however narrow or wide the two are. The
/// result is the value of a bucket at or before `i`, and that of the bucket
/// at `i` itself if no bucket before it contains `input`.
pub proof fn lemma_earlier_bucket_wins<T: PartialOrd>(
    buckets: Seq<Bucket<T>>,
    input: T,
    i: int,
    j: int,
)
    requires
        0 <= i < j < buckets.len(),
        buckets[i].contains(input),
        buckets[j].contains(input),
    ensures
        !first_match(buckets, input, j),
        exists|k: int|
            0 <= k <= i && first_match(buckets, input, k) && classify(buckets, input) == Some(
                buckets[k].value,
            ),
        (forall|k: int| 0 <= k < i ==> !(#[trigger] buckets[k]).contains(input)) ==> classify(
            buckets,
            input,
        ) == Some(buckets[i].value),
{
    lemma_match_has_first(buckets, input, i);
    let k = choose|k: int| 0 <= k <= i && first_match(buckets, input, k);
    lemma_first_match_decides(buckets, input, k);
    if forall|k: int| 0 <= k < i ==> !(#[trigger] buckets[k]).contains(input) {
        lemma_first_match_decides(buckets, input, i);
    }
}

/// The lower bound is inclusive: a bucket `[lo, hi)` whose range is not
/// empty contains `lo`, and decides for `lo` if no earlier bucket contains
/// it.
///
/// `lo` has to be comparable with itself, which a NaN is not, and has to lie
/// below `hi` where there is one: a bucket such as `[3, 3)` or `[5, 3)`
/// contains nothing, its own lower bound included.
pub proof fn lemma_lower_bound_is_inclusive<T: PartialOrd>(
    buckets: Seq<Bucket<T>>,
    i: int,
    lo: T,
)
    requires
        0 <= i < buckets.len(),
        buckets[i].min == Some(lo),
        lo.is_ge(&lo),
        buckets[i].max matches Some(hi) ==> lo.is_lt(&hi),
    ensures
        buckets[i].contains(lo),
        (forall|k: int| 0 <= k < i ==> !(#[trigger] buckets[k]).contains(lo)) ==> classify(
            buckets,
            lo,
        ) == Some(buckets[i].value),
{
    if forall|k: int| 0 <= k < i ==> !(#[trigger] buckets[k]).contains(lo) {
        lemma_first_match_decides(buckets, lo, i);
    }
}

/// The upper bound is exclusive: in an order that keeps the laws of
/// `PartialOrd`, a bucket `[lo, hi)` does not contain `hi` and never decides
/// for it, whatever `lo` is.
pub proof fn lemma_upper_bound_is_exclusive<T: PartialOrd>(
    buckets: Seq<Bucket<T>>,
    i: int,
    hi: T,
)
    requires
        obeys_partial_cmp_spec_properties::<T>(),
        0 <= i < buckets.len(),
        buckets[i].max == Some(hi),
    ensures
        !buckets[i].contains(hi),
        !first_match(buckets, hi, i),
{
    reveal(obeys_partial_cmp_spec_properties);
}

/// Open-ended buckets: without a lower bound a bucket contains exactly the
/// inputs below its upper bound, without an upper bound exactly those at or
/// above its lower bound, and without either bound every input.
pub proof fn lemma_open_ended_buckets<T: PartialOrd>(bucket: Bucket<T>, input: T)
    ensures
        bucket.min is None && bucket.max is None ==> bucket.contains(input),
        bucket.min is None && bucket.max is Some ==> (bucket.contains(input) <==> input.is_lt(
            &bucket.max.unwrap(),
        )),
        bucket.min is Some && bucket.max is None ==> (bucket.contains(input) <==> input.is_ge(
            &bucket.min.unwrap(),
        )),
{
}

/// The empty list gives `None` for every input.
pub proof fn lemma_empty_classifies_nothing<T: PartialOrd>(input: T)
    ensures
        classify(Seq::<Bucket<T>>::empty(), input) is None,
{
    lemma_none_iff_no_match(Seq::<Bucket<T>>::empty(), input);
}

/// Adding a bucket changes no answer that was there before: an input that
/// had a value keeps it, and one that had none gets the new bucket's value
/// exactly if the new bucket contains it.
pub proof fn lemma_classify_push<T: PartialOrd>(
    buckets: Seq<Bucket<T>>,
    bucket: Bucket<T>,
    input: T,
)
    ensures
        classify(buckets.push(bucket), input) == match classify(buckets, input) {
            Some(v) => Some(v),
            None => if bucket.contains(input) {
                Some(bucket.value)
            } else {
                None
            },
        },
{
    let longer = buckets.push(bucket);
    lemma_none_iff_no_match(buckets, input);
    if classify(buckets, input) is Some {
        let i = choose|i: int| first_match(buckets, input, i);
        lemma_first_match_decides(longer, input, i);
    } else {
        let n = buckets.len() as int;
        if bucket.contains(input) {
            lemma_first_match_decides(longer, input, n);
        } else {
            lemma_none_iff_no_match(longer, input);
        }
    }
}

} // verus!
