use vstd::prelude::*;

use crate::item::{ItemKind, SparseError, SparseItem};

verus! {

/// What the iterator waits for next.
#[derive(Clone, Copy, Debug, PartialEq, Eq, Structural)]
pub enum Phase {
    /// Ask where the next region of this kind begins, at or after the cursor.
    Seek(ItemKind),
    /// No data lies at or after the cursor: ask for the end-of-file offset.
    Length,
    /// The sequence is complete.
    Done,
    /// An error was handed out; nothing follows.
    Failed,
}

/// The whole state of a point iterator, as plain values.
#[derive(Clone, Copy, Debug, PartialEq, Eq, Structural)]
pub struct PointState {
    /// The offset the iteration began at.
    pub start: u64,
    /// The offset of the last point handed out, or `start` before the first one.
    pub cursor: u64,
    /// Whether a point has been handed out.
    pub started: bool,
    /// What comes next.
    pub phase: Phase,
}

/// One seek that the caller must perform for the iterator.
#[derive(Clone, Copy, Debug, PartialEq, Eq, Structural)]
pub enum Request {
    /// Find the start of the next region of kind `want` at or after `offset`
    /// (`SEEK_DATA` or `SEEK_HOLE`).
    Seek { want: ItemKind, offset: u64 },
    /// Find the end-of-file offset (`SEEK_END` with offset 0).
    Length,
    /// Nothing: the iteration is over.
    Stop,
}

/// The outcome of a performed [`Request`].
#[derive(Clone, Copy, Debug, PartialEq, Eq, Structural)]
pub enum Reply {
    /// The seek succeeded and landed on this offset.
    Offset(u64),
    /// No region of the requested kind exists at or after the offset (`ENXIO`). This ends
    /// the data of a file; it is not an error.
    NoMoreData,
    /// The seek failed.
    Error(SparseError),
}

/// The seek that the iterator needs in state `s`.
pub open spec fn spec_request(s: PointState) -> Request {
    match s.phase {
        Phase::Seek(k) => Request::Seek { want: k, offset: s.cursor },
        Phase::Length => Request::Length,
        _ => Request::Stop,
    }
}

/// `s` with another phase.
pub open spec fn with_phase(s: PointState, phase: Phase) -> PointState {
    PointState { start: s.start, cursor: s.cursor, started: s.started, phase: phase }
}

/// Hand out the point `(kind, offset)` and continue in `phase`.
pub open spec fn emit(s: PointState, kind: ItemKind, offset: u64, phase: Phase) -> (
    PointState,
    Option<Result<SparseItem, SparseError>>,
) {
    (
        PointState { start: s.start, cursor: offset, started: true, phase: phase },
        Some(Ok(SparseItem { kind: kind, offset: offset })),
    )
}

/// Hand out the error `e` and stop for good.
pub open spec fn fail(s: PointState, e: SparseError) -> (
    PointState,
    Option<Result<SparseItem, SparseError>>,
) {
    (with_phase(s, Phase::Failed), Some(Err(e)))
}

/// How the iterator in state `s` takes the answer `reply` to its request: the next state
/// and what it hands out (`None`: nothing yet, or nothing ever again once the phase is
/// `Done` or `Failed`).
///
/// Seeks for data and for holes alternate, starting with data at `start`; each answer is
/// handed out as a point of the kind asked for and becomes the cursor. The first data seek
/// may land on `start` itself; every later answer must lie beyond the cursor, since an
/// answer that does not move forward could repeat for ever (a protocol error). When no data
/// is left, the file length decides the end: beyond the cursor, it is handed out as a
/// final `Hole` point at end-of-file (the only point of a file that is all hole); at or
/// below the cursor (the last hole was the end, the file is empty, or it shrank), the
/// sequence simply ends.
pub open spec fn step(s: PointState, reply: Reply) -> (
    PointState,
    Option<Result<SparseItem, SparseError>>,
) {
    match s.phase {
        Phase::Seek(want) => match reply {
            Reply::Error(e) => fail(s, e),
            Reply::NoMoreData => if want == ItemKind::Data {
                (with_phase(s, Phase::Length), None)
            } else {
                fail(s, SparseError::Protocol)
            },
            Reply::Offset(o) => if o > s.cursor || (!s.started && o == s.cursor) {
                emit(s, want, o, Phase::Seek(want.spec_other()))
            } else {
                fail(s, SparseError::Protocol)
            },
        },
        Phase::Length => match reply {
            Reply::Error(e) => fail(s, e),
            Reply::NoMoreData => fail(s, SparseError::Protocol),
            Reply::Offset(len) => if len > s.cursor {
                emit(s, ItemKind::Hole, len, Phase::Done)
            } else {
                (with_phase(s, Phase::Done), None)
            },
        },
        _ => (s, None),
    }
}

/// Offsets strictly increase along `pts`.
#[verifier::opaque]
pub open spec fn increasing(pts: Seq<SparseItem>) -> bool {
    forall|i: int, j: int| 0 <= i < j < pts.len() ==> #[trigger] pts[i].offset < #[trigger] pts[j].offset
}

/// Neighbouring points of `pts` differ in kind.
#[verifier::opaque]
pub open spec fn alternates(pts: Seq<SparseItem>) -> bool {
    forall|i: int| 0 <= i && i + 1 < pts.len() ==> #[trigger] pts[i].kind != pts[i + 1].kind
}

/// `pts` is what an iterator now in state `s` has handed out: offsets that increase from
/// `start` on, kinds that alternate from `Data` on, but for a final `Hole` point at
/// end-of-file, which may follow a hole or be the only point.
pub open spec fn points_wf(s: PointState, pts: Seq<SparseItem>) -> bool {
    &&& !s.started ==> pts.len() == 0 && s.cursor == s.start
    &&& s.started ==> pts.len() > 0 && pts[0].offset >= s.start && pts.last().offset == s.cursor
    &&& increasing(pts)
    &&& s.phase != Phase::Done ==> alternates(pts)
    &&& pts.len() > 0 ==> alternates(pts.drop_last())
    &&& pts.len() > 0 && pts[0].kind == ItemKind::Hole ==> pts.len() == 1 && s.phase == Phase::Done
    &&& s.phase == Phase::Seek(ItemKind::Hole) ==> s.started && pts.last().kind == ItemKind::Data
    &&& s.started && (s.phase == Phase::Seek(ItemKind::Data) || s.phase == Phase::Length
        || s.phase == Phase::Done) ==> pts.last().kind == ItemKind::Hole
}

/// The state of a new iterator that begins at `start`.
pub open spec fn initial(start: u64) -> PointState {
    PointState { start: start, cursor: start, started: false, phase: Phase::Seek(ItemKind::Data) }
}

/// The transition of [`step`], as an executable function.
pub fn transition(s: PointState, reply: Reply) -> (res: (
    PointState,
    Option<Result<SparseItem, SparseError>>,
))
    ensures
        res == step(s, reply),
{
    let failed = PointState { start: s.start, cursor: s.cursor, started: s.started, phase: Phase::Failed };
    match s.phase {
        Phase::Seek(want) => match reply {
            Reply::Error(e) => (failed, Some(Err(e))),
            Reply::NoMoreData => if want == ItemKind::Data {
                (PointState { start: s.start, cursor: s.cursor, started: s.started, phase: Phase::Length }, None)
            } else {
                (failed, Some(Err(SparseError::Protocol)))
            },
            Reply::Offset(o) => if o > s.cursor || (!s.started && o == s.cursor) {
                (
                    PointState { start: s.start, cursor: o, started: true, phase: Phase::Seek(want.other()) },
                    Some(Ok(SparseItem { kind: want, offset: o })),
                )
            } else {
                (failed, Some(Err(SparseError::Protocol)))
            },
        },
        Phase::Length => match reply {
            Reply::Error(e) => (failed, Some(Err(e))),
            Reply::NoMoreData => (failed, Some(Err(SparseError::Protocol))),
            Reply::Offset(len) => if len > s.cursor {
                (
                    PointState { start: s.start, cursor: len, started: true, phase: Phase::Done },
                    Some(Ok(SparseItem { kind: ItemKind::Hole, offset: len })),
                )
            } else {
                (PointState { start: s.start, cursor: s.cursor, started: s.started, phase: Phase::Done }, None)
            },
        },
        _ => (s, None),
    }
}

/// Appending a point beyond the last one keeps the offsets increasing, and appending one
/// of the other kind keeps the kinds alternating.
proof fn lemma_push(pts: Seq<SparseItem>, p: SparseItem)
    requires
        increasing(pts),
        pts.len() > 0 ==> p.offset > pts.last().offset,
    ensures
        increasing(pts.push(p)),
        pts.push(p).drop_last() == pts,
        alternates(pts) && (pts.len() > 0 ==> p.kind != pts.last().kind) ==> alternates(pts.push(p)),
{
    reveal(increasing);
    reveal(alternates);
    let npts = pts.push(p);
    assert(npts.drop_last() =~= pts);
    assert forall|i: int, j: int| 0 <= i < j < npts.len() implies #[trigger] npts[i].offset
        < #[trigger] npts[j].offset by {
        if j < pts.len() {
            assert(pts[i].offset < pts[j].offset);
        } else if i < pts.len() - 1 {
            assert(pts[i].offset < pts[pts.len() - 1].offset);
        }
    }
    if alternates(pts) && (pts.len() > 0 ==> p.kind != pts.last().kind) {
        assert forall|i: int| 0 <= i && i + 1 < npts.len() implies #[trigger] npts[i].kind
            != npts[i + 1].kind by {
            if i + 1 < pts.len() {
                assert(pts[i].kind != pts[i + 1].kind);
            }
        }
    }
}

/// A step keeps the state and the handed-out points in agreement.
proof fn lemma_step_wf(s: PointState, pts: Seq<SparseItem>, reply: Reply)
    requires
        points_wf(s, pts),
    ensures
        ({
            let (next, out) = step(s, reply);
            points_wf(next, match out {
                Some(Ok(p)) => pts.push(p),
                _ => pts,
            })
        }),
{
    match s.phase {
        Phase::Seek(want) => match reply {
            Reply::Offset(o) => {
                if o > s.cursor || (!s.started && o == s.cursor) {
                    lemma_push(pts, SparseItem { kind: want, offset: o });
                }
            },
            _ => {},
        },
        Phase::Length => match reply {
            Reply::Offset(len) => {
                if len > s.cursor {
                    lemma_push(pts, SparseItem { kind: ItemKind::Hole, offset: len });
                }
            },
            _ => {},
        },
        _ => {},
    }
}

/// What an iterator in state `s` hands out over its next `n` requests, when each request
/// is answered by `answer`: a file that nobody modifies answers a given seek the same way
/// every time.
pub open spec fn drain(s: PointState, answer: spec_fn(Request) -> Reply, n: nat) -> Seq<
    Result<SparseItem, SparseError>,
>
    decreases n,
{
    if n == 0 {
        Seq::empty()
    } else {
        let (next, out) = step(s, answer(spec_request(s)));
        let rest = drain(next, answer, (n - 1) as nat);
        match out {
            Some(x) => seq![x] + rest,
            None => rest,
        }
    }
}

/// Two iterators over the same unmodified file, in the same state (as two new iterators
/// from the same offset are), hand out the same points and errors in the same order: what
/// comes out depends on nothing but the state of the iterator and the file's answers.
pub proof fn lemma_same_file_same_points(
    a: PointState,
    b: PointState,
    answer: spec_fn(Request) -> Reply,
    n: nat,
)
    requires
        a == b,
    ensures
        drain(a, answer, n) == drain(b, answer, n),
    decreases n,
{
    if n > 0 {
        let (na, _) = step(a, answer(spec_request(a)));
        let (nb, _) = step(b, answer(spec_request(b)));
        lemma_same_file_same_points(na, nb, answer, (n - 1) as nat);
    }
}

/// Once an iterator is `Done` or `Failed` it asks for no seek and, however often it is
/// advanced, hands out nothing more and stays as it is.
pub proof fn lemma_finished_stays_finished(s: PointState, reply: Reply, answer: spec_fn(Request) -> Reply, n: nat)
    requires
        s.phase == Phase::Done || s.phase == Phase::Failed,
    ensures
        spec_request(s) == Request::Stop,
        step(s, reply) == (s, None::<Result<SparseItem, SparseError>>),
        drain(s, answer, n) == Seq::<Result<SparseItem, SparseError>>::empty(),
    decreases n,
{
    if n > 0 {
        lemma_finished_stays_finished(s, reply, answer, (n - 1) as nat);
    }
}

/// How far an iterator in state `s` may still go: each step of a running iterator
/// lowers it.
pub open spec fn remaining(s: PointState) -> nat {
    let rank: nat = match s.phase {
        Phase::Seek(ItemKind::Hole) => 3,
        Phase::Seek(ItemKind::Data) => 2,
        Phase::Length => 1,
        _ => 0,
    };
    (((u64::MAX - s.cursor) as nat) * 8 + rank + if s.started { 0nat } else { 4nat }) as nat
}

/// Every answer, whatever it is, moves a running iterator closer to its end: no iterator
/// runs forever, and the sequence of points of any file is finite.
pub proof fn lemma_progress(s: PointState, reply: Reply)
    requires
        s.phase != Phase::Done,
        s.phase != Phase::Failed,
    ensures
        remaining(step(s, reply).0) < remaining(s),
{
}

/// An iteration that has handed out points finishes only on a length answer. Where that
/// length lies beyond the last point, it is handed out as a final `Hole` point at
/// end-of-file; otherwise the last point, a `Hole`, is at or beyond it.
pub proof fn lemma_finish_at_length(s: PointState, pts: Seq<SparseItem>, reply: Reply)
    requires
        points_wf(s, pts),
        s.phase != Phase::Done,
        step(s, reply).0.phase == Phase::Done,
        step(s, reply).0.started,
    ensures
        s.phase == Phase::Length,
        reply matches Reply::Offset(len) && (if len > s.cursor {
            step(s, reply).1 == Some(Ok::<SparseItem, SparseError>(SparseItem { kind: ItemKind::Hole, offset: len }))
                && step(s, reply).0.cursor == len
        } else {
            step(s, reply).1 is None && pts.last() == (SparseItem { kind: ItemKind::Hole, offset: s.cursor })
        }),
{
}

/// Iterate over the start of Data and Holes within a file.
///
/// The iterator performs no seek itself: `request` names the seek it needs and `advance`
/// takes its outcome. Once it is `Done` or `Failed` it asks for nothing and hands out
/// nothing. It owns no file; the caller keeps the file and must expect its cursor to move.
pub struct SparseIter {
    state: PointState,
    history: Ghost<Seq<SparseItem>>,
}

impl SparseIter {
    /// The iterator's state.
    pub closed spec fn state(&self) -> PointState {
        self.state
    }

    /// The points handed out so far, in order.
    pub closed spec fn points(&self) -> Seq<SparseItem> {
        self.history@
    }

    /// The state and the points handed out agree.
    pub open spec fn wf(&self) -> bool {
        points_wf(self.state(), self.points())
    }

    /// An iterator over the file from offset `start` on (0 for the whole file).
    pub fn new(start: u64) -> (r: SparseIter)
        ensures
            r.wf(),
            r.state() == initial(start),
            r.points() == Seq::<SparseItem>::empty(),
    {
        proof {
            reveal(increasing);
            reveal(alternates);
        }
        SparseIter { state: PointState { start: start, cursor: start, started: false, phase: Phase::Seek(ItemKind::Data) }, history: Ghost(Seq::empty()) }
    }

    /// The current state.
    pub fn current(&self) -> (r: PointState)
        ensures
            r == self.state(),
    {
        self.state
    }

    /// The seek to perform next; `Stop` once the iteration is over.
    pub fn request(&self) -> (r: Request)
        ensures
            r == spec_request(self.state()),
            r == Request::Stop <==> (self.state().phase == Phase::Done || self.state().phase == Phase::Failed),
    {
        match self.state.phase {
            Phase::Seek(k) => Request::Seek { want: k, offset: self.state.cursor },
            Phase::Length => Request::Length,
            _ => Request::Stop,
        }
    }

    /// Take the outcome of the requested seek; hand out the next point or error, if there
    /// is one yet.
    pub fn advance(&mut self, reply: Reply) -> (r: Option<Result<SparseItem, SparseError>>)
        requires
            old(self).wf(),
        ensures
            final(self).wf(),
            (final(self).state(), r) == step(old(self).state(), reply),
            final(self).points() == match r {
                Some(Ok(p)) => old(self).points().push(p),
                _ => old(self).points(),
            },
            (old(self).state().phase == Phase::Done || old(self).state().phase == Phase::Failed)
                ==> r is None && final(self).state() == old(self).state(),
    {
        let (next, out) = transition(self.state, reply);
        proof {
            lemma_step_wf(self.state, self.history@, reply);
        }
        if let Some(Ok(p)) = out {
            self.history = Ghost(self.history@.push(p));
        }
        self.state = next;
        out
    }
}

} // verus!
