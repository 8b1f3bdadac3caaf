use vstd::prelude::*;

use crate::item::{ItemKind, SparseError, SparseItem, SparseRangeItem};
use crate::points::{Phase, PointState, Reply, Request, SparseIter, spec_request, step};

verus! {

/// The range from point `p` up to point `q`, of `p`'s kind.
pub open spec fn range_between(p: SparseItem, q: SparseItem) -> SparseRangeItem {
    SparseRangeItem { kind: p.kind, start: p.offset, end: q.offset }
}

/// `rs` are non-empty ranges that follow each other without gap or overlap and together
/// make up `[from, to)`.
#[verifier::opaque]
pub open spec fn tiles(rs: Seq<SparseRangeItem>, from: u64, to: u64) -> bool {
    &&& rs.len() == 0 ==> from == to
    &&& rs.len() > 0 ==> rs[0].start == from && rs.last().end == to
    &&& forall|i: int| 0 <= i < rs.len() ==> rs[i].start < #[trigger] rs[i].end
    &&& forall|i: int| 0 <= i && i + 1 < rs.len() ==> #[trigger] rs[i].end == rs[i + 1].start
}

/// Neighbouring ranges of `rs` differ in kind.
#[verifier::opaque]
pub open spec fn kinds_alternate(rs: Seq<SparseRangeItem>) -> bool {
    forall|i: int, j: int|
        0 <= i && j == i + 1 && j < rs.len() ==> #[trigger] rs[i].kind != #[trigger] rs[j].kind
}

/// The last point that a points iterator in state `s` handed out, as far as its state
/// tells it (the cursor, and the kind that the phase implies). Once it has `Failed`, no
/// point follows, and the kind given there is of no consequence.
pub open spec fn prev_of(s: PointState) -> Option<SparseItem> {
    if !s.started {
        None
    } else if s.phase == Phase::Seek(ItemKind::Hole) {
        Some(SparseItem { kind: ItemKind::Data, offset: s.cursor })
    } else {
        Some(SparseItem { kind: ItemKind::Hole, offset: s.cursor })
    }
}

/// What the range iterator hands out when its points iterator, in state `s`, hands out
/// `out`. A point closes the range that the previous point opened; the first point, where
/// it lies beyond `start`, closes the hole that the file begins with.
pub open spec fn range_output(
    s: PointState,
    out: Option<Result<SparseItem, SparseError>>,
) -> Option<Result<SparseRangeItem, SparseError>> {
    match out {
        Some(Ok(p)) => match prev_of(s) {
            Some(q) => Some(Ok(range_between(q, p))),
            None => if p.offset > s.start {
                Some(Ok(SparseRangeItem { kind: ItemKind::Hole, start: s.start, end: p.offset }))
            } else {
                None
            },
        },
        Some(Err(e)) => Some(Err(e)),
        None => None,
    }
}

/// `rs` is what a range iterator, begun at `origin` and whose points iterator is now in
/// state `s`, has handed out.
pub open spec fn ranges_wf(s: PointState, origin: u64, rs: Seq<SparseRangeItem>) -> bool {
    &&& !s.started ==> rs.len() == 0 && origin == s.start
    &&& s.started ==> tiles(rs, origin, s.cursor)
    &&& kinds_alternate(rs)
    &&& s.started && s.phase != Phase::Done && s.phase != Phase::Failed && rs.len() > 0
        ==> rs.last().kind != prev_of(s).unwrap().kind
}

/// Appending a range that begins where the others end keeps them tiling.
proof fn lemma_push_tiles(rs: Seq<SparseRangeItem>, from: u64, to: u64, r: SparseRangeItem)
    requires
        tiles(rs, from, to),
        r.start == to,
        r.start < r.end,
    ensures
        tiles(rs.push(r), from, r.end),
{
    reveal(tiles);
    let nrs = rs.push(r);
    assert forall|i: int| 0 <= i && i + 1 < nrs.len() implies #[trigger] nrs[i].end == nrs[i + 1].start by {
        if i + 1 < rs.len() {
            assert(rs[i].end == rs[i + 1].start);
        } else {
            assert(nrs[i] == rs.last());
        }
    }
    assert forall|i: int| 0 <= i < nrs.len() implies nrs[i].start < #[trigger] nrs[i].end by {
        if i < rs.len() {
            assert(nrs[i] == rs[i]);
        }
    }
}

/// Appending a range of another kind than the last keeps the kinds alternating.
proof fn lemma_push_alternate(rs: Seq<SparseRangeItem>, r: SparseRangeItem)
    requires
        rs.len() > 0 ==> rs.last().kind != r.kind,
        kinds_alternate(rs),
    ensures
        kinds_alternate(rs.push(r)),
{
    reveal(kinds_alternate);
    let nrs = rs.push(r);
    assert forall|i: int, j: int| 0 <= i && j == i + 1 && j < nrs.len() implies #[trigger] nrs[i].kind
        != #[trigger] nrs[j].kind by {
        if j < rs.len() {
            assert(rs[i].kind != rs[j].kind);
        } else {
            assert(nrs[i] == rs.last());
        }
    }
}

/// A step of the points iterator keeps the ranges handed out in agreement with it.
proof fn lemma_range_step_wf(s: PointState, pts: Seq<SparseItem>, origin: u64, rs: Seq<SparseRangeItem>, reply: Reply)
    requires
        crate::points::points_wf(s, pts),
        ranges_wf(s, origin, rs),
    ensures
        ({
            let (next, out) = step(s, reply);
            let r = range_output(s, out);
            ranges_wf(next, origin, match r {
                Some(Ok(x)) => rs.push(x),
                _ => rs,
            })
        }),
{
    let (next, out) = step(s, reply);
    let r = range_output(s, out);
    if let Some(Ok(x)) = r {
        if !s.started {
            reveal(tiles);
            assert(rs.len() == 0);
        }
        lemma_push_tiles(rs, origin, s.cursor, x);
        lemma_push_alternate(rs, x);
    } else if !s.started {
        reveal(tiles);
    }
}

/// Iterate over a file returning the ranges of Data and Holes that compose it.
///
/// Wraps a [`SparseIter`]: each point that it hands out closes the range that the previous
/// point opened, and the first point closes the hole that the file begins with, if any.
/// The final `Hole` point at end-of-file closes the last range. Errors of the points
/// iterator are handed on once, after which both stop.
pub struct SparseRangeIter {
    inner: SparseIter,
    origin: Ghost<u64>,
    history: Ghost<Seq<SparseRangeItem>>,
}

impl SparseRangeIter {
    /// The state of the points iterator inside.
    pub closed spec fn state(&self) -> PointState {
        self.inner.state()
    }

    /// The points handed out by the points iterator inside, also before it was wrapped.
    pub closed spec fn points(&self) -> Seq<SparseItem> {
        self.inner.points()
    }

    /// The offset that the first range begins at: the cursor of the points iterator when
    /// it was wrapped (its `start` where it was new).
    pub closed spec fn origin(&self) -> u64 {
        self.origin@
    }

    /// The ranges handed out so far, in order.
    pub closed spec fn ranges(&self) -> Seq<SparseRangeItem> {
        self.history@
    }

    /// The points iterator inside is well formed and the ranges agree with it.
    pub open spec fn wf(&self) -> bool {
        &&& crate::points::points_wf(self.state(), self.points())
        &&& ranges_wf(self.state(), self.origin(), self.ranges())
    }

    /// The ranges of the points that `inner` hands out from now on.
    pub fn new(inner: SparseIter) -> (r: SparseRangeIter)
        requires
            inner.wf(),
        ensures
            r.wf(),
            r.state() == inner.state(),
            r.points() == inner.points(),
            r.origin() == inner.state().cursor,
            r.ranges() == Seq::<SparseRangeItem>::empty(),
    {
        proof {
            reveal(tiles);
            reveal(kinds_alternate);
        }
        SparseRangeIter { origin: Ghost(inner.state().cursor), inner, history: Ghost(Seq::empty()) }
    }

    /// The state of the points iterator inside.
    pub fn current(&self) -> (r: PointState)
        ensures
            r == self.state(),
    {
        self.inner.current()
    }

    /// The seek to perform next; `Stop` once the iteration is over.
    pub fn request(&self) -> (r: Request)
        ensures
            r == spec_request(self.state()),
            r == Request::Stop <==> (self.state().phase == Phase::Done || self.state().phase == Phase::Failed),
    {
        self.inner.request()
    }

    /// Take the outcome of the requested seek; hand out the next range or error, if there
    /// is one yet.
    pub fn advance(&mut self, reply: Reply) -> (r: Option<Result<SparseRangeItem, SparseError>>)
        requires
            old(self).wf(),
        ensures
            final(self).wf(),
            final(self).state() == step(old(self).state(), reply).0,
            r == range_output(old(self).state(), step(old(self).state(), reply).1),
            final(self).points() == match step(old(self).state(), reply).1 {
                Some(Ok(p)) => old(self).points().push(p),
                _ => old(self).points(),
            },
            final(self).origin() == old(self).origin(),
            final(self).ranges() == match r {
                Some(Ok(x)) => old(self).ranges().push(x),
                _ => old(self).ranges(),
            },
            (old(self).state().phase == Phase::Done || old(self).state().phase == Phase::Failed)
                ==> r is None && final(self).state() == old(self).state(),
    {
        let s = self.inner.current();
        proof {
            lemma_range_step_wf(s, self.inner.points(), self.origin@, self.history@, reply);
        }
        let out = self.inner.advance(reply);
        let r = match out {
            Some(Ok(p)) => if s.started {
                let kind = if s.phase == Phase::Seek(ItemKind::Hole) {
                    ItemKind::Data
                } else {
                    ItemKind::Hole
                };
                Some(Ok(SparseRangeItem { kind, start: s.cursor, end: p.offset }))
            } else if p.offset > s.start {
                Some(Ok(SparseRangeItem { kind: ItemKind::Hole, start: s.start, end: p.offset }))
            } else {
                None
            },
            Some(Err(e)) => Some(Err(e)),
            None => None,
        };
        if let Some(Ok(x)) = r {
            self.history = Ghost(self.history@.push(x));
        }
        r
    }
}

/// Whatever the seek answers were, the ranges handed out so far are non-empty, contiguous
/// and make up `[origin, cursor)`: from where the iteration began (`start`, for a new
/// points iterator) to its last point. None is handed out before the first point. Once the
/// iteration is `Done`, that last point lies at or beyond the end-of-file offset of the
/// final length answer (exactly at it, for a file that kept its length), so the ranges
/// make up the whole file.
pub proof fn lemma_ranges_cover(it: &SparseRangeIter)
    requires
        it.wf(),
    ensures
        !it.state().started ==> it.ranges().len() == 0 && it.origin() == it.state().start,
        it.state().started ==> it.points().last().offset == it.state().cursor,
        it.state().started ==> tiles(it.ranges(), it.origin(), it.state().cursor),
{
}

/// Whatever the seek answers were, neighbouring ranges handed out differ in kind: `Data`
/// and `Hole` alternate. No range, or a single one, is a valid outcome.
pub proof fn lemma_range_kinds_alternate(it: &SparseRangeIter)
    requires
        it.wf(),
    ensures
        kinds_alternate(it.ranges()),
{
}

/// What a range iterator whose points iterator is in state `s` hands out over its next
/// `n` requests, when each request is answered by `answer`: a file that nobody modifies
/// answers a given seek the same way every time.
pub open spec fn drain_ranges(s: PointState, answer: spec_fn(Request) -> Reply, n: nat) -> Seq<
    Result<SparseRangeItem, SparseError>,
>
    decreases n,
{
    if n == 0 {
        Seq::empty()
    } else {
        let (next, out) = step(s, answer(spec_request(s)));
        let rest = drain_ranges(next, answer, (n - 1) as nat);
        match range_output(s, out) {
            Some(x) => seq![x] + rest,
            None => rest,
        }
    }
}

/// Two range iterators over the same unmodified file, in the same state (as two new ones
/// from the same offset are), hand out the same ranges and errors in the same order.
pub proof fn lemma_same_file_same_ranges(
    a: PointState,
    b: PointState,
    answer: spec_fn(Request) -> Reply,
    n: nat,
)
    requires
        a == b,
    ensures
        drain_ranges(a, answer, n) == drain_ranges(b, answer, n),
    decreases n,
{
    if n > 0 {
        let (na, _) = step(a, answer(spec_request(a)));
        let (nb, _) = step(b, answer(spec_request(b)));
        lemma_same_file_same_ranges(na, nb, answer, (n - 1) as nat);
    }
}

} // verus!
