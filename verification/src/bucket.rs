//! One bucket and the rule that decides whether it takes an input.

use vstd::prelude::*;
use vstd::std_specs::cmp::PartialOrdIs;
use vstd::std_specs::cmp::PartialOrdSpec;

verus! {

/// A half-open range `[min, max)` tied to the value that it stands for.
///
/// An absent `min` means that the range has no lower limit, an absent `max`
/// that it has no upper limit. Nothing ties `value` to the range, and nothing
/// asks that `min` lie below `max`: a bucket whose `min` is not below its
/// `max` is accepted and simply contains nothing.
#[derive(Debug, Clone, Copy, PartialEq)]
pub struct Bucket<T> {
    pub min: Option<T>,
    pub max: Option<T>,
    pub value: T,
}

/// `answer` is a value that the executable comparison `x >= y` can return.
///
/// For a type whose order Verus knows (`T::obeys_partial_cmp_spec()`), the
/// comparison can only return `x.is_ge(&y)`. For any other type, a float for
/// one, this is all that can be said of the comparison.
pub open spec fn ge_answers<T: PartialOrd>(x: T, y: T, answer: bool) -> bool {
    call_ensures(T::ge, (&x, &y), answer)
}

/// `answer` is a value that the executable comparison `x < y` can return.
pub open spec fn lt_answers<T: PartialOrd>(x: T, y: T, answer: bool) -> bool {
    call_ensures(T::lt, (&x, &y), answer)
}

impl<T: PartialOrd> Bucket<T> {
    /// The matching rule: `input` lies in `[min, max)`, in the order of `T`.
    ///
    /// The lower bound is inclusive and the upper bound exclusive. A value
    /// that cannot be compared with a bound that is present (a NaN, in a
    /// type that has one) lies in no such range.
    pub open spec fn contains(self, input: T) -> bool {
        &&& self.min matches Some(lo) ==> input.is_ge(&lo)
        &&& self.max matches Some(hi) ==> input.is_lt(&hi)
    }

    /// Every comparison that the matching rule makes for `input` can come
    /// out in favour of this bucket.
    pub open spec fn can_accept(self, input: T) -> bool {
        &&& self.min matches Some(lo) ==> ge_answers(input, lo, true)
        &&& self.max matches Some(hi) ==> lt_answers(input, hi, true)
    }

    /// One of the comparisons that the matching rule makes for `input` can
    /// come out against this bucket.
    pub open spec fn can_reject(self, input: T) -> bool {
        ||| self.min matches Some(lo) && ge_answers(input, lo, false)
        ||| self.max matches Some(hi) && lt_answers(input, hi, false)
    }

    /// Where Verus knows the order of `T`, the comparisons can only answer
    /// as the matching rule says.
    pub proof fn lemma_answers_follow_rule(self, input: T)
        requires
            T::obeys_partial_cmp_spec(),
        ensures
            self.can_accept(input) ==> self.contains(input),
            self.can_reject(input) ==> !self.contains(input),
    {
    }
}

} // verus!
