//! Laying out a chain of segments and turning it into a segment/joint graph.
use vstd::prelude::*;
use vstd::arithmetic::div_mod::{lemma_mod_self_0, lemma_small_mod};
use crate::graph::{CurveEnd, JointConnection, SegmentConnection};
use crate::joint::Joint;

verus! {

/// A segment of the graph: its curve and the joints at its two ends.
pub struct Segment<C> {
    /// The curve the segment follows.
    pub curve: C,
    /// Index of the joint at the start (parameter 0).
    pub start_joint: usize,
    /// Index of the joint at the end (parameter 1).
    pub end_joint: usize,
}

impl<C> Segment<C> {
    /// The joint at `end` of this segment.
    pub open spec fn spec_joint_at(&self, end: CurveEnd) -> usize {
        match end {
            CurveEnd::Start => self.start_joint,
            CurveEnd::End => self.end_joint,
        }
    }

    /// The joint at `end` of this segment.
    pub fn joint_at(&self, end: CurveEnd) -> (r: usize)
        ensures
            r == self.spec_joint_at(end),
    {
        match end {
            CurveEnd::Start => self.start_joint,
            CurveEnd::End => self.end_joint,
        }
    }
}

/// The arena that owns every segment and joint; they refer to each other by index.
pub struct CurveGraph<C> {
    pub segments: Vec<Segment<C>>,
    pub joints: Vec<Joint>,
}

/// The segment end `(id, end)`.
pub open spec fn seg_end(id: int, end: CurveEnd) -> SegmentConnection {
    SegmentConnection { id: id as usize, end }
}

/// The member lists of a joint's connection groups.
pub open spec fn groups(j: Joint) -> Seq<Seq<SegmentConnection>> {
    j.view().map_values(|c: JointConnection| c.members())
}

/// The number of joints of a chain of `n` segments.
pub open spec fn joint_count(n: int, join_ends: bool) -> int {
    if join_ends { n } else { n + 1 }
}

/// The connection groups of joint `k` of a chain of `n > 0` segments: an inner
/// joint links the end of segment `k - 1` to the start of segment `k`; the
/// first and last joints hold one end each, or, when the ends are joined, the
/// first joint links the end of the last segment to the start of the first.
pub open spec fn chain_joint(n: int, join_ends: bool, k: int) -> Seq<Seq<SegmentConnection>> {
    if 0 < k < n {
        seq![seq![seg_end(k - 1, CurveEnd::End)], seq![seg_end(k, CurveEnd::Start)]]
    } else if k == 0 {
        if join_ends {
            seq![seq![seg_end(0, CurveEnd::Start)], seq![seg_end(n - 1, CurveEnd::End)]]
        } else {
            seq![seq![seg_end(0, CurveEnd::Start)]]
        }
    } else {
        seq![seq![seg_end(n - 1, CurveEnd::End)]]
    }
}

impl<C> CurveGraph<C> {
    /// The graph is the chain of `curves`, laid out in order, with its ends
    /// joined or not. An empty chain gives an empty graph.
    pub open spec fn is_chain(&self, curves: Seq<C>, join_ends: bool) -> bool {
        let n = curves.len() as int;
        if n == 0 {
            self.segments.len() == 0 && self.joints.len() == 0
        } else {
            &&& self.segments.len() == n
            &&& self.joints.len() == joint_count(n, join_ends)
            &&& forall|i: int|
                0 <= i < n ==> {
                    &&& (#[trigger] self.segments@[i]).curve == curves[i]
                    &&& self.segments@[i].start_joint == i
                    &&& self.segments@[i].end_joint == (i + 1) % joint_count(n, join_ends)
                }
            &&& forall|k: int|
                0 <= k < self.joints.len() ==> groups(#[trigger] self.joints@[k]) == chain_joint(
                    n,
                    join_ends,
                    k,
                )
            &&& forall|k: int| 0 <= k < self.joints.len() ==> (#[trigger] self.joints@[k]).wf()
        }
    }
}

/// A connection group with a single member.
fn single(id: usize, end: CurveEnd) -> (r: JointConnection)
    ensures
        r.members() == seq![SegmentConnection { id, end }],
{
    let mut v: Vec<SegmentConnection> = Vec::new();
    v.push(SegmentConnection { id, end });
    proof {
        assert(v@ =~= seq![SegmentConnection { id, end }]);
    }
    JointConnection::new(v)
}

/// A joint of single-member groups, one for each given segment end.
fn joint_of(ends: Vec<SegmentConnection>) -> (r: Joint)
    ensures
        groups(r) == ends@.map_values(|e: SegmentConnection| seq![e]),
        r.wf(),
{
    let mut conns: Vec<JointConnection> = Vec::new();
    let mut i: usize = 0;
    while i < ends.len()
        invariant
            i <= ends.len(),
            conns.len() == i,
            forall|j: int|
                0 <= j < i ==> (#[trigger] conns@[j]).members() == seq![ends@[j]],
        decreases ends.len() - i,
    {
        conns.push(single(ends[i].id, ends[i].end));
        i = i + 1;
    }
    let r = Joint::new(conns);
    proof {
        assert(groups(r) =~= ends@.map_values(|e: SegmentConnection| seq![e]));
    }
    r
}

/// Joint `k` of a chain of `n > 0` segments.
fn chain_joint_at(n: usize, join_ends: bool, k: usize) -> (r: Joint)
    requires
        n > 0,
        k < joint_count(n as int, join_ends),
    ensures
        groups(r) == chain_joint(n as int, join_ends, k as int),
        r.wf(),
{
    let mut ends: Vec<SegmentConnection> = Vec::new();
    if 0 < k && k < n {
        ends.push(SegmentConnection { id: k - 1, end: CurveEnd::End });
        ends.push(SegmentConnection { id: k, end: CurveEnd::Start });
    } else if k == 0 {
        ends.push(SegmentConnection { id: 0, end: CurveEnd::Start });
        if join_ends {
            ends.push(SegmentConnection { id: n - 1, end: CurveEnd::End });
        }
    } else {
        ends.push(SegmentConnection { id: n - 1, end: CurveEnd::End });
    }
    let r = joint_of(ends);
    proof {
        assert(groups(r) =~= chain_joint(n as int, join_ends, k as int));
    }
    r
}

/// Collects segments one after the other; `build` turns them into a graph.
pub struct CurveBuilder<C> {
    segments: Vec<C>,
}

impl<C> CurveBuilder<C> {
    /// The curves pushed so far, in order.
    pub closed spec fn view(&self) -> Seq<C> {
        self.segments@
    }

    /// A builder with no segments.
    pub fn new() -> (r: CurveBuilder<C>)
        ensures
            r.view() == Seq::<C>::empty(),
    {
        CurveBuilder { segments: Vec::new() }
    }

    /// Appends a segment to the chain.
    pub fn push(self, curve: C) -> (r: CurveBuilder<C>)
        ensures
            r.view() == self.view().push(curve),
    {
        let mut segments = self.segments;
        segments.push(curve);
        CurveBuilder { segments }
    }

    /// The number of segments pushed so far.
    pub fn len(&self) -> (r: usize)
        ensures
            r == self.view().len(),
    {
        self.segments.len()
    }

    /// Turns the chain into segments and joints: segment `i` runs from joint `i`
    /// to joint `i + 1`, and with `join_ends` the last one ends at joint 0.
    pub fn build(self, join_ends: bool) -> (r: CurveGraph<C>)
        requires
            self.view().len() < usize::MAX,
        ensures
            r.is_chain(self.view(), join_ends),
    {
        let ghost curves = self.view();
        let mut rest = self.segments;
        let n = rest.len();
        if n == 0 {
            return CurveGraph { segments: Vec::new(), joints: Vec::new() };
        }
        let m: usize = if join_ends { n } else { n + 1 };

        let mut joints: Vec<Joint> = Vec::new();
        let mut k: usize = 0;
        while k < m
            invariant
                m == joint_count(n as int, join_ends),
                n > 0,
                k <= m,
                joints.len() == k,
                forall|j: int|
                    0 <= j < k ==> groups(#[trigger] joints@[j]) == chain_joint(
                        n as int,
                        join_ends,
                        j,
                    ) && joints@[j].wf(),
            decreases m - k,
        {
            joints.push(chain_joint_at(n, join_ends, k));
            k = k + 1;
        }

        // Take the curves off the back, then hand them out from the front.
        let mut reversed: Vec<C> = Vec::new();
        while rest.len() > 0
            invariant
                n == curves.len(),
                rest.len() + reversed.len() == n,
                rest@ == curves.take(rest.len() as int),
                forall|j: int| 0 <= j < reversed.len() ==> #[trigger] reversed@[j] == curves[n - 1 - j],
            decreases rest.len(),
        {
            let c = rest.pop().unwrap();
            reversed.push(c);
        }
        let mut segments: Vec<Segment<C>> = Vec::new();
        let mut i: usize = 0;
        while i < n
            invariant
                n == curves.len(),
                m == joint_count(n as int, join_ends),
                m > 0,
                i <= n,
                reversed.len() == n - i,
                segments.len() == i,
                forall|j: int| 0 <= j < reversed.len() ==> #[trigger] reversed@[j] == curves[n - 1 - j],
                forall|j: int|
                    0 <= j < i ==> {
                        &&& (#[trigger] segments@[j]).curve == curves[j]
                        &&& segments@[j].start_joint == j
                        &&& segments@[j].end_joint == (j + 1) % (m as int)
                    },
            decreases n - i,
        {
            let c = reversed.pop().unwrap();
            segments.push(Segment { curve: c, start_joint: i, end_joint: (i + 1) % m });
            i = i + 1;
        }
        CurveGraph { segments, joints }
    }
}

/// A chain of `n > 0` segments has `n` segment nodes and `n + 1` joints (`n`
/// when its ends are joined); consecutive segments share a joint whose groups
/// hold the end of the first and the start of the second, and a joined chain's
/// last segment ends at the joint where the first one starts.
pub proof fn lemma_chain_shape<C>(g: CurveGraph<C>, curves: Seq<C>, join_ends: bool)
    requires
        curves.len() > 0,
        g.is_chain(curves, join_ends),
    ensures
        g.segments.len() == curves.len(),
        g.joints.len() == if join_ends {
            curves.len() as int
        } else {
            curves.len() + 1int
        },
        forall|i: int|
            0 <= i < curves.len() - 1 ==> {
                let k = (#[trigger] g.segments@[i]).end_joint as int;
                &&& k == g.segments@[i + 1].start_joint
                &&& groups(g.joints@[k]) == seq![
                    seq![seg_end(i, CurveEnd::End)],
                    seq![seg_end(i + 1, CurveEnd::Start)],
                ]
            },
        join_ends ==> {
            let last = curves.len() - 1;
            let k = g.segments@[last].end_joint as int;
            &&& k == g.segments@[0].start_joint
            &&& groups(g.joints@[k]) == seq![
                seq![seg_end(0, CurveEnd::Start)],
                seq![seg_end(last, CurveEnd::End)],
            ]
        },
{
    let n = curves.len() as int;
    let m = joint_count(n, join_ends);
    assert forall|i: int| 0 <= i < n - 1 implies {
        let k = (#[trigger] g.segments@[i]).end_joint as int;
        &&& k == g.segments@[i + 1].start_joint
        &&& groups(g.joints@[k]) == seq![
            seq![seg_end(i, CurveEnd::End)],
            seq![seg_end(i + 1, CurveEnd::Start)],
        ]
    } by {
        lemma_small_mod((i + 1) as nat, m as nat);
        assert(g.segments@[i + 1].start_joint == i + 1);
        assert(groups(g.joints@[i + 1]) == chain_joint(n, join_ends, i + 1));
    }
    if join_ends {
        lemma_mod_self_0(n);
        assert(g.segments@[n - 1].end_joint == 0);
        assert(g.segments@[0].start_joint == 0);
        assert(groups(g.joints@[0]) == chain_joint(n, join_ends, 0));
    }
}

} // verus!
