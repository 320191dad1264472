//! The segment/joint graph: an arena of segments and joints that refer to each
//! other by index.
use vstd::prelude::*;
use smallvec::SmallVec;

verus! {

/// One end of a segment: the start is at parameter 0, the end at parameter 1.
#[derive(Clone, Copy, Debug, PartialEq, Eq, Structural)]
pub enum CurveEnd {
    Start,
    End,
}

/// The end of one segment, as it attaches to a joint.
#[derive(Clone, Copy, Debug, PartialEq, Eq, Structural)]
pub struct SegmentConnection {
    /// Index of the segment in the graph.
    pub id: usize,
    /// The end of the segment that lies at the joint.
    pub end: CurveEnd,
}

/// The segment ends of one connection group, kept inline for the usual single one.
#[verifier::external_body]
pub struct Members {
    inner: SmallVec<[SegmentConnection; 1]>,
}

/// The segment ends that a [`Members`] holds, in order.
pub uninterp spec fn members_of(m: Members) -> Seq<SegmentConnection>;

/// Relies on `SmallVec::from_vec`: the result holds the vector's items in order.
#[verifier::external_body]
fn members_from_vec(v: Vec<SegmentConnection>) -> (r: Members)
    ensures
        members_of(r) == v@,
{
    Members { inner: SmallVec::from_vec(v) }
}

/// Relies on `SmallVec::len`: the number of items held.
#[verifier::external_body]
fn members_len(m: &Members) -> (r: usize)
    ensures
        r == members_of(*m).len(),
{
    m.inner.len()
}

/// Relies on `SmallVec`'s indexing: the item at position `i`.
#[verifier::external_body]
fn member_at(m: &Members, i: usize) -> (r: SegmentConnection)
    requires
        i < members_of(*m).len(),
    ensures
        r == members_of(*m)[i as int],
{
    m.inner[i]
}

/// The bucket that an angle falls in when `len` co-directional members share a
/// connection: bucket `i` (below the last) ends at `2 * (i + 1) - len` sectors.
pub open spec fn bucket(len: int, sector: int) -> int {
    let b = (sector + len) / 2;
    if b < 0 {
        0
    } else if b > len - 1 {
        len - 1
    } else {
        b
    }
}

/// Segment ends at one joint that leave it in the same direction, ordered by
/// curvature.
pub struct JointConnection {
    pub segments: Members,
}

impl JointConnection {
    /// The members in order.
    pub open spec fn members(&self) -> Seq<SegmentConnection> {
        members_of(self.segments)
    }

    /// A connection groups at least one segment end.
    pub open spec fn wf(&self) -> bool {
        self.members().len() > 0
    }

    /// Whether `c` is one of the members.
    pub open spec fn has(&self, c: SegmentConnection) -> bool {
        exists|k: int| 0 <= k < self.members().len() && self.members()[k] == c
    }

    pub fn new(segments: Vec<SegmentConnection>) -> (r: JointConnection)
        ensures
            r.members() == segments@,
    {
        JointConnection { segments: members_from_vec(segments) }
    }

    /// The number of members.
    pub fn len(&self) -> (r: usize)
        ensures
            r == self.members().len(),
    {
        members_len(&self.segments)
    }

    /// Member `i`.
    pub fn member(&self, i: usize) -> (r: SegmentConnection)
        requires
            i < self.members().len(),
        ensures
            r == self.members()[i as int],
    {
        member_at(&self.segments, i)
    }

    /// Whether `c` is one of the members.
    pub fn holds(&self, c: SegmentConnection) -> (r: bool)
        ensures
            r == self.has(c),
    {
        let n = members_len(&self.segments);
        let mut k: usize = 0;
        while k < n
            invariant
                n == self.members().len(),
                k <= n,
                forall|j: int| 0 <= j < k ==> self.members()[j] != c,
            decreases n - k,
        {
            if member_at(&self.segments, k) == c {
                return true;
            }
            k = k + 1;
        }
        false
    }

    /// The member that a force direction selects. `sector` is the direction's
    /// angle, in the connection's own frame, counted in whole steps of ten
    /// degrees (rounded down); a lone member is always selected.
    pub fn eval(&self, sector: i64) -> (r: SegmentConnection)
        requires
            self.wf(),
        ensures
            r == self.members()[bucket(self.members().len() as int, sector as int)],
    {
        let n = members_len(&self.segments);
        let mut i: usize = 0;
        while i + 1 < n
            invariant
                n == self.members().len(),
                n > 0,
                i < n,
                i > 0 ==> sector >= 2 * i - n,
            decreases n - i,
        {
            let bound: i128 = 2 * (i as i128 + 1) - n as i128;
            if (sector as i128) < bound {
                return member_at(&self.segments, i);
            }
            i = i + 1;
        }
        member_at(&self.segments, n - 1)
    }
}

} // verus!
