//! The decisions of the motion integrator: what a dot does next on its segment,
//! and which segment end it reaches first within the time left.
//!
//! Quantities arrive as bit patterns of single-precision values (see
//! [`crate::ieee`]); the caller does the arithmetic and acts on the decision.
use vstd::prelude::*;
use crate::graph::CurveEnd;
use crate::ieee::{eq, le, lt, rank, rank_of, spec_eq, spec_le, spec_lt, SIGN_BIT};
use crate::roots::SolutionIter;

verus! {

/// The deepest a single tick may recurse through joints.
pub const MAX_DEPTH: usize = 10;

/// The bit pattern of 0.0.
pub const ZERO: u32 = 0;

/// The bit pattern of 1.0.
pub const ONE: u32 = 0x3F80_0000;

/// The bit pattern of 1.0e-6: a time budget below this is spent.
pub const MIN_REMAINING: u32 = 0x3586_37BD;

/// What a dot does next.
#[derive(Clone, Copy, Debug, PartialEq, Eq, Structural)]
pub enum Step {
    /// The depth guard tripped: the rest of this tick's time is dropped.
    Exhausted,
    /// The time budget is spent.
    Done,
    /// No speed and no force along the curve: the dot stays as it is.
    Rest,
    /// The dot sits on this end and moves, or is pulled, past it: cross the
    /// joint there before integrating.
    Boundary(CurveEnd),
    /// Integrate the motion along the segment.
    Integrate,
}

/// The next step of a dot at parameter `t` with speed `v` and force `g` along
/// the curve, with `remaining` time left at recursion depth `depth`.
pub open spec fn spec_step(depth: usize, remaining: u32, t: u32, v: u32, g: u32) -> Step {
    if depth > MAX_DEPTH {
        Step::Exhausted
    } else if spec_lt(remaining, MIN_REMAINING) {
        Step::Done
    } else if spec_eq(g, ZERO) && spec_eq(v, ZERO) {
        Step::Rest
    } else if spec_eq(t, ONE) && (spec_lt(ZERO, v) || spec_eq(v, ZERO) && spec_lt(ZERO, g)) {
        Step::Boundary(CurveEnd::End)
    } else if spec_eq(t, ZERO) && (spec_lt(v, ZERO) || spec_eq(v, ZERO) && spec_lt(g, ZERO)) {
        Step::Boundary(CurveEnd::Start)
    } else {
        Step::Integrate
    }
}

/// Decides the next step of a dot (see [`spec_step`]).
pub fn step(depth: usize, remaining: u32, t: u32, v: u32, g: u32) -> (r: Step)
    ensures
        r == spec_step(depth, remaining, t, v, g),
{
    if depth > MAX_DEPTH {
        Step::Exhausted
    } else if lt(remaining, MIN_REMAINING) {
        Step::Done
    } else if eq(g, ZERO) && eq(v, ZERO) {
        Step::Rest
    } else if eq(t, ONE) && (lt(ZERO, v) || eq(v, ZERO) && lt(ZERO, g)) {
        Step::Boundary(CurveEnd::End)
    } else if eq(t, ZERO) && (lt(v, ZERO) || eq(v, ZERO) && lt(g, ZERO)) {
        Step::Boundary(CurveEnd::Start)
    } else {
        Step::Integrate
    }
}

/// Whether a bit pattern encodes a zero of either sign.
pub open spec fn is_zero(bits: u32) -> bool {
    bits == ZERO || bits == SIGN_BIT
}

/// A dot with no speed, on which the force has no pull along the curve, does
/// not move: its next step changes neither its parameter nor its speed.
pub proof fn lemma_still_dot_stays(depth: usize, remaining: u32, t: u32, v: u32, g: u32)
    requires
        is_zero(v),
        is_zero(g),
    ensures
        spec_step(depth, remaining, t, v, g) == Step::Exhausted || spec_step(
            depth,
            remaining,
            t,
            v,
            g,
        ) == Step::Done || spec_step(depth, remaining, t, v, g) == Step::Rest,
{
}

/// A time within the step at which the dot reaches one end of its segment.
#[derive(Clone, Copy, Debug, PartialEq, Eq, Structural)]
pub struct Crossing {
    /// Bit pattern of the time from the start of the step.
    pub time: u32,
    /// The end reached.
    pub end: CurveEnd,
}

/// A root counts if it lies in `(0, remaining]`.
pub open spec fn admissible(time: u32, remaining: u32) -> bool {
    spec_lt(ZERO, time) && spec_le(time, remaining)
}

/// The roots at which each end is reached, tagged with their end: those for the
/// end first, then those for the start.
pub open spec fn candidates(forward: SolutionIter<u32>, backward: SolutionIter<u32>) -> Seq<
    Crossing,
> {
    tagged(forward.remaining(), CurveEnd::End) + tagged(backward.remaining(), CurveEnd::Start)
}

/// Each time of `times`, paired with `end`.
pub open spec fn tagged(times: Seq<u32>, end: CurveEnd) -> Seq<Crossing> {
    times.map_values(|time: u32| Crossing { time, end })
}

/// Candidate `i` is the first of the admissible ones with the smallest time.
pub open spec fn is_earliest(cs: Seq<Crossing>, remaining: u32, i: int) -> bool {
    &&& 0 <= i < cs.len()
    &&& admissible(cs[i].time, remaining)
    &&& forall|j: int|
        0 <= j < cs.len() && #[trigger] admissible(cs[j].time, remaining) ==> rank(cs[i].time)
            <= rank(cs[j].time)
    &&& forall|j: int|
        0 <= j < i && #[trigger] admissible(cs[j].time, remaining) ==> rank(cs[i].time) < rank(
            cs[j].time,
        )
}

/// Appends the values still to come from `it`, paired with `end`.
fn drain_into(it: SolutionIter<u32>, end: CurveEnd, out: &mut Vec<Crossing>)
    ensures
        final(out)@ == old(out)@ + tagged(it.remaining(), end),
{
    let ghost all = it.remaining();
    let ghost start = out@;
    let mut it = it;
    let ghost mut k: int = 0;
    loop
        invariant
            0 <= k <= all.len(),
            it.remaining() == all.skip(k),
            out@ == start + tagged(all.take(k), end),
        ensures
            out@ == start + tagged(all, end),
        decreases all.len() - k,
    {
        match it.next() {
            None => {
                assert(all.take(k) =~= all);
                break ;
            },
            Some(x) => {
                proof {
                    assert(x == all[k]);
                    assert(all.take(k + 1) =~= all.take(k).push(x));
                    assert(tagged(all.take(k + 1), end) =~= tagged(all.take(k), end).push(
                        Crossing { time: x, end },
                    ));
                    assert(it.remaining() =~= all.skip(k + 1));
                    k = k + 1;
                }
                out.push(Crossing { time: x, end });
            },
        }
    }
}

/// The first time within `(0, remaining]` at which the dot reaches an end of
/// its segment, given the roots for reaching the end (`forward`) and the start
/// (`backward`). On equal times the end wins, being listed first.
pub fn earliest_crossing(
    forward: SolutionIter<u32>,
    backward: SolutionIter<u32>,
    remaining: u32,
) -> (r: Option<Crossing>)
    ensures
        ({
            let cs = candidates(forward, backward);
            match r {
                None => forall|i: int| 0 <= i < cs.len() ==> !admissible(cs[i].time, remaining),
                Some(c) => exists|i: int| #[trigger] is_earliest(cs, remaining, i) && cs[i] == c,
            }
        }),
{
    let ghost cs = candidates(forward, backward);
    let mut all: Vec<Crossing> = Vec::new();
    drain_into(forward, CurveEnd::End, &mut all);
    drain_into(backward, CurveEnd::Start, &mut all);
    assert(all@ =~= cs);
    let mut best: Option<usize> = None;
    let mut i: usize = 0;
    while i < all.len()
        invariant
            all@ == cs,
            i <= all.len(),
            match best {
                None => forall|j: int| 0 <= j < i ==> !admissible(cs[j].time, remaining),
                Some(b) => {
                    &&& b < i
                    &&& admissible(cs[b as int].time, remaining)
                    &&& forall|j: int|
                        0 <= j < i && #[trigger] admissible(cs[j].time, remaining) ==> rank(
                            cs[b as int].time,
                        ) <= rank(cs[j].time)
                    &&& forall|j: int|
                        0 <= j < b && #[trigger] admissible(cs[j].time, remaining) ==> rank(
                            cs[b as int].time,
                        ) < rank(cs[j].time)
                },
            },
        decreases all.len() - i,
    {
        let time = all[i].time;
        if lt(ZERO, time) && le(time, remaining) {
            match best {
                None => {
                    best = Some(i);
                },
                Some(b) => {
                    if rank_of(time) < rank_of(all[b].time) {
                        best = Some(i);
                    }
                },
            }
        }
        i = i + 1;
    }
    match best {
        None => None,
        Some(b) => {
            assert(is_earliest(cs, remaining, b as int));
            Some(all[b])
        },
    }
}

} // verus!
