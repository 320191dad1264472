//! Joints and the choice of the segment a dot continues on when it reaches one.
use vstd::prelude::*;
use smallvec::SmallVec;
use crate::graph::{bucket, JointConnection, SegmentConnection};
use crate::ieee::{lt, rank, rank_of, spec_lt};

verus! {

/// The bit pattern of -1.0e-4: an exit whose alignment with the direction of
/// travel is above this counts as ahead of the dot (not more than a right angle
/// backwards).
pub const FRONT_LIMIT: u32 = 0xB8D1_B717;

/// The connection groups of a joint, kept inline for the usual two.
#[verifier::external_body]
pub struct Connections {
    inner: SmallVec<[JointConnection; 2]>,
}

/// The connection groups that a [`Connections`] holds, in order.
pub uninterp spec fn connections_of(c: Connections) -> Seq<JointConnection>;

/// Relies on `SmallVec::from_vec`: the result holds the vector's items in order.
#[verifier::external_body]
fn connections_from_vec(v: Vec<JointConnection>) -> (r: Connections)
    ensures
        connections_of(r) == v@,
{
    Connections { inner: SmallVec::from_vec(v) }
}

/// Relies on `SmallVec::len`: the number of items held.
#[verifier::external_body]
fn connections_len(c: &Connections) -> (r: usize)
    ensures
        r == connections_of(*c).len(),
{
    c.inner.len()
}

/// Relies on `SmallVec`'s indexing: the item at position `i`.
#[verifier::external_body]
fn connection_at(c: &Connections, i: usize) -> (r: &JointConnection)
    requires
        i < connections_of(*c).len(),
    ensures
        *r == connections_of(*c)[i as int],
{
    &c.inner[i]
}

/// What the caller measured of one connection of a joint, for a dot arriving
/// there. The alignments are bit patterns of single-precision dot products.
#[derive(Clone, Copy, Debug, PartialEq, Eq, Structural)]
pub struct ExitReading {
    /// Alignment of the force direction with the connection's exit direction.
    pub force: u32,
    /// Alignment of the direction of travel with the connection's exit direction.
    pub travel: u32,
    /// Angle of the force direction in the connection's own frame, in whole
    /// steps of ten degrees, rounded down (see [`JointConnection::eval`]).
    pub sector: i64,
}

/// Where a dot goes on from a joint.
#[derive(Clone, Copy, Debug, PartialEq, Eq, Structural)]
pub enum JointExit {
    /// The joint leads nowhere else: the dot stays where it is and stops.
    DeadEnd,
    /// The dot continues on this segment end.
    Exit(SegmentConnection),
}

/// Whether an exit lies ahead of the direction of travel.
pub open spec fn ahead(r: ExitReading) -> bool {
    spec_lt(FRONT_LIMIT, r.travel)
}

/// A place where segment ends meet.
pub struct Joint {
    pub connections: Connections,
}

impl Joint {
    /// The connection groups in order.
    pub open spec fn view(&self) -> Seq<JointConnection> {
        connections_of(self.connections)
    }

    /// Every connection group has a member.
    pub open spec fn wf(&self) -> bool {
        forall|i: int| 0 <= i < self.view().len() ==> (#[trigger] self.view()[i]).wf()
    }

    /// Connection `i` is not the one the dot arrives from.
    pub open spec fn candidate(&self, entry: SegmentConnection, i: int) -> bool {
        0 <= i < self.view().len() && !self.view()[i].has(entry)
    }

    /// Connection `i` may be chosen; with `front`, only exits ahead may.
    pub open spec fn eligible(
        &self,
        entry: SegmentConnection,
        rs: Seq<ExitReading>,
        front: bool,
        i: int,
    ) -> bool {
        self.candidate(entry, i) && (front ==> ahead(rs[i]))
    }

    /// Connection `c` is the first of the eligible ones whose exit is best
    /// aligned with the force. Alignments compare by [`rank`], which orders
    /// every number as usual and puts a NaN beyond the infinities.
    pub open spec fn is_choice(
        &self,
        entry: SegmentConnection,
        rs: Seq<ExitReading>,
        front: bool,
        c: int,
    ) -> bool {
        &&& self.eligible(entry, rs, front, c)
        &&& forall|j: int|
            #[trigger] self.eligible(entry, rs, front, j) ==> rank(rs[j].force) <= rank(
                rs[c].force,
            )
        &&& forall|j: int|
            0 <= j < c && #[trigger] self.eligible(entry, rs, front, j) ==> rank(rs[j].force)
                < rank(rs[c].force)
    }

    /// Some exit other than the arrival lies ahead.
    pub open spec fn any_ahead(&self, entry: SegmentConnection, rs: Seq<ExitReading>) -> bool {
        exists|i: int| self.eligible(entry, rs, true, i)
    }

    /// `r` is where a dot arriving on `entry` goes, given the readings `rs` of the
    /// connections. Exits ahead are preferred; among them (or, if there are none,
    /// among all exits) the first best aligned with the force wins, and its
    /// member is picked by the force's sector.
    pub open spec fn enters(
        &self,
        entry: SegmentConnection,
        rs: Seq<ExitReading>,
        r: JointExit,
    ) -> bool {
        if self.view().len() < 2 || !(exists|i: int| self.candidate(entry, i)) {
            r == JointExit::DeadEnd
        } else {
            exists|c: int|
                #[trigger] self.is_choice(entry, rs, self.any_ahead(entry, rs), c) && r
                    == JointExit::Exit(
                    self.view()[c].members()[bucket(
                        self.view()[c].members().len() as int,
                        rs[c].sector as int,
                    )],
                )
        }
    }

    pub fn new(connections: Vec<JointConnection>) -> (r: Joint)
        ensures
            r.view() == connections@,
    {
        Joint { connections: connections_from_vec(connections) }
    }

    /// The number of connection groups.
    pub fn len(&self) -> (r: usize)
        ensures
            r == self.view().len(),
    {
        connections_len(&self.connections)
    }

    /// Connection group `i`.
    pub fn connection(&self, i: usize) -> (r: &JointConnection)
        requires
            i < self.view().len(),
        ensures
            *r == self.view()[i as int],
    {
        connection_at(&self.connections, i)
    }

    /// Picks the exit for a dot arriving on `entry`; `readings[i]` describes
    /// connection `i`. A joint with fewer than two connections is a dead end.
    pub fn enter(&self, entry: SegmentConnection, readings: &Vec<ExitReading>) -> (r: JointExit)
        requires
            self.wf(),
            readings.len() == self.view().len(),
        ensures
            self.enters(entry, readings@, r),
    {
        let n = connections_len(&self.connections);
        if n < 2 {
            return JointExit::DeadEnd;
        }
        let ghost rs = readings@;
        let mut best_front: Option<usize> = None;
        let mut best_any: Option<usize> = None;
        let mut i: usize = 0;
        while i < n
            invariant
                n == self.view().len(),
                rs == readings@,
                rs.len() == n,
                i <= n,
                self.best_so_far(entry, rs, true, best_front, i as int),
                self.best_so_far(entry, rs, false, best_any, i as int),
            decreases n - i,
        {
            let conn = connection_at(&self.connections, i);
            if !conn.holds(entry) {
                let key = rank_of(readings[i].force);
                if lt(FRONT_LIMIT, readings[i].travel) {
                    match best_front {
                        None => {
                            best_front = Some(i);
                        },
                        Some(b) => {
                            if key > rank_of(readings[b].force) {
                                best_front = Some(i);
                            }
                        },
                    }
                }
                match best_any {
                    None => {
                        best_any = Some(i);
                    },
                    Some(b) => {
                        if key > rank_of(readings[b].force) {
                            best_any = Some(i);
                        }
                    },
                }
            }
            i = i + 1;
        }
        let chosen = match best_front {
            Some(b) => b,
            None => match best_any {
                Some(b) => b,
                None => {
                    proof {
                        assert forall|j: int| !self.candidate(entry, j) by {
                            if self.candidate(entry, j) {
                                assert(self.eligible(entry, rs, false, j));
                            }
                        }
                    }
                    return JointExit::DeadEnd;
                },
            },
        };
        let ghost front = self.any_ahead(entry, rs);
        proof {
            if best_front.is_none() {
                assert(!front) by {
                    if front {
                        let w = choose|w: int| self.eligible(entry, rs, true, w);
                    }
                }
            } else {
                assert(self.eligible(entry, rs, true, chosen as int));
            }
            assert(self.candidate(entry, chosen as int));
            assert(self.is_choice(entry, rs, front, chosen as int));
        }
        let conn = connection_at(&self.connections, chosen);
        JointExit::Exit(conn.eval(readings[chosen].sector))
    }

    /// Among connections `0..i`, `best` is the choice so far (or none is eligible).
    pub open spec fn best_so_far(
        &self,
        entry: SegmentConnection,
        rs: Seq<ExitReading>,
        front: bool,
        best: Option<usize>,
        i: int,
    ) -> bool {
        match best {
            None => forall|j: int| 0 <= j < i ==> !#[trigger] self.eligible(entry, rs, front, j),
            Some(b) => {
                &&& b < i
                &&& self.eligible(entry, rs, front, b as int)
                &&& forall|j: int|
                    0 <= j < i && #[trigger] self.eligible(entry, rs, front, j) ==> rank(
                        rs[j].force,
                    ) <= rank(rs[b as int].force)
                &&& forall|j: int|
                    0 <= j < b && #[trigger] self.eligible(entry, rs, front, j) ==> rank(
                        rs[j].force,
                    ) < rank(rs[b as int].force)
            },
        }
    }
}

/// A joint is a pure function of its inputs: for one joint, one arrival and one
/// set of readings, every outcome that meets the exit rule is the same outcome.
pub proof fn lemma_enter_deterministic(
    j: Joint,
    entry: SegmentConnection,
    rs: Seq<ExitReading>,
    r1: JointExit,
    r2: JointExit,
)
    requires
        j.enters(entry, rs, r1),
        j.enters(entry, rs, r2),
    ensures
        r1 == r2,
{
    if j.view().len() >= 2 && exists|i: int| j.candidate(entry, i) {
        let front = j.any_ahead(entry, rs);
        let c1 = choose|c: int|
            #[trigger] j.is_choice(entry, rs, front, c) && r1 == JointExit::Exit(
                j.view()[c].members()[bucket(
                    j.view()[c].members().len() as int,
                    rs[c].sector as int,
                )],
            );
        let c2 = choose|c: int|
            #[trigger] j.is_choice(entry, rs, front, c) && r2 == JointExit::Exit(
                j.view()[c].members()[bucket(
                    j.view()[c].members().len() as int,
                    rs[c].sector as int,
                )],
            );
        assert(j.eligible(entry, rs, front, c1));
        assert(j.eligible(entry, rs, front, c2));
        assert(c1 == c2);
    }
}

} // verus!
