use curve_track::roots::{Solution, SolutionIter};

fn drain(mut it: SolutionIter<u32>) -> Vec<u32> {
    let mut out = Vec::new();
    while let Some(x) = it.next() {
        out.push(x);
    }
    out
}

#[test]
fn none_yields_nothing() {
    assert_eq!(drain(SolutionIter::from(None)), Vec::<u32>::new());
}

#[test]
fn one_root_yields_it_once() {
    assert_eq!(drain(SolutionIter::from(Some(Solution::One(4)))), vec![4]);
    assert_eq!(drain(Solution::One(9).into_iter()), vec![9]);
}

#[test]
fn two_roots_yield_second_first() {
    assert_eq!(drain(SolutionIter::from(Some(Solution::Two(1, 2)))), vec![2, 1]);
    assert_eq!(drain(Solution::Two(5, 6).into_iter()), vec![6, 5]);
}

#[test]
fn exhausted_iterator_stays_exhausted() {
    let mut it = Solution::One(3).into_iter();
    assert_eq!(it.next(), Some(3));
    assert_eq!(it.next(), None);
    assert_eq!(it.next(), None);
}

#[test]
fn linear_root_as_single_solution() {
    let root: Option<u32> = Some(7);
    let it = SolutionIter::from(root.map(Solution::One));
    assert_eq!(drain(it), vec![7]);
    let none: Option<u32> = None;
    assert_eq!(drain(SolutionIter::from(none.map(Solution::One))), Vec::<u32>::new());
}
