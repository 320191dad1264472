//! The real roots of a linear or quadratic equation, and the lazy sequence
//! that hands them out one at a time without allocating.
use vstd::prelude::*;

verus! {

/// One or two roots.
pub enum Solution<T> {
    One(T),
    Two(T, T),
}

/// What is left to hand out of a [`Solution`]. A pair yields its second root first.
pub enum SolutionIter<T> {
    Exhausted,
    One(T),
    Two(T, T),
}

impl<T> Solution<T> {
    /// The roots in the order they are stored.
    pub open spec fn roots(self) -> Seq<T> {
        match self {
            Solution::One(a) => seq![a],
            Solution::Two(a, b) => seq![a, b],
        }
    }

    /// The iterator over these roots.
    pub fn into_iter(self) -> (r: SolutionIter<T>)
        ensures
            r.remaining() == self.roots().reverse(),
    {
        match self {
            Solution::One(a) => SolutionIter::One(a),
            Solution::Two(a, b) => SolutionIter::Two(a, b),
        }
    }
}

/// What the iterator over an optional solution hands out.
pub open spec fn from_spec<T>(value: Option<Solution<T>>) -> Seq<T> {
    match value {
        None => Seq::empty(),
        Some(s) => s.roots().reverse(),
    }
}

/// A linear equation's optional root, taken as a one-root solution, is handed
/// out by the iterator exactly as it stands: the root alone, or nothing.
pub proof fn lemma_single_root_iter<T>(x: Option<T>)
    ensures
        from_spec(
            match x {
                None => None,
                Some(a) => Some(Solution::One(a)),
            },
        ) == match x {
            None => Seq::<T>::empty(),
            Some(a) => seq![a],
        },
{
    if let Some(a) = x {
        assert(seq![a].reverse() =~= seq![a]);
    }
}

impl<T> SolutionIter<T> {
    /// The values still to come, in the order `next` hands them out.
    pub open spec fn remaining(self) -> Seq<T> {
        match self {
            SolutionIter::Exhausted => Seq::empty(),
            SolutionIter::One(a) => seq![a],
            SolutionIter::Two(a, b) => seq![b, a],
        }
    }

    /// The iterator over an optional solution: nothing for `None`.
    pub fn from(value: Option<Solution<T>>) -> (r: SolutionIter<T>)
        ensures
            r.remaining() == from_spec(value),
    {
        match value {
            None => SolutionIter::Exhausted,
            Some(Solution::One(a)) => SolutionIter::One(a),
            Some(Solution::Two(a, b)) => SolutionIter::Two(a, b),
        }
    }

    /// Hands out the next value, if any is left.
    pub fn next(&mut self) -> (r: Option<T>)
        ensures
            old(self).remaining().len() == 0 ==> r.is_none() && final(self).remaining().len() == 0,
            old(self).remaining().len() > 0 ==> r == Some(old(self).remaining()[0])
                && final(self).remaining() == old(self).remaining().drop_first(),
    {
        let mut taken = SolutionIter::Exhausted;
        core::mem::swap(self, &mut taken);
        match taken {
            SolutionIter::Exhausted => None,
            SolutionIter::One(x) => Some(x),
            SolutionIter::Two(a, b) => {
                *self = SolutionIter::One(a);
                Some(b)
            },
        }
    }
}

} // verus!
