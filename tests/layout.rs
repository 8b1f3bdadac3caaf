use fs_sparse::{
    ItemKind, OsCall, Phase, Reply, Request, SeekModes, SparseError, SparseItem, SparseIter,
    SparseRangeItem, SparseRangeIter, MAX_OS_OFFSET, to_os_offset,
};

const GIB: u64 = 1024 * 1024 * 1024;

/// A file as the kernel sees it: its length and its data extents, sorted and apart.
struct FakeFile {
    len: u64,
    data: Vec<(u64, u64)>,
}

impl FakeFile {
    /// `lseek` with the Linux numbers: the result and the error code.
    fn lseek(&self, call: OsCall) -> (i64, i32) {
        let modes = SeekModes::host();
        let off = call.offset as u64;
        if call.whence == modes.end {
            return ((self.len as i64) + call.offset, 0);
        }
        if off >= self.len {
            return (-1, modes.no_such_region);
        }
        if call.whence == modes.data {
            for &(s, e) in &self.data {
                if e > off {
                    return (s.max(off) as i64, 0);
                }
            }
            (-1, modes.no_such_region)
        } else if call.whence == modes.hole {
            for &(s, e) in &self.data {
                if s <= off && off < e {
                    return (e.min(self.len) as i64, 0);
                }
            }
            (off as i64, 0)
        } else {
            (-1, 22)
        }
    }

    fn answer(&self, req: Request) -> Reply {
        let modes = SeekModes::host();
        match modes.os_call(req) {
            Ok(call) => {
                let (ret, errno) = self.lseek(call);
                modes.classify(ret, errno)
            }
            Err(e) => Reply::Error(e),
        }
    }
}

fn points_of(file: &FakeFile, start: u64) -> Vec<Result<SparseItem, SparseError>> {
    let mut it = SparseIter::new(start);
    let mut out = Vec::new();
    loop {
        let req = it.request();
        if req == Request::Stop {
            return out;
        }
        if let Some(x) = it.advance(file.answer(req)) {
            out.push(x);
        }
    }
}

fn ranges_of(file: &FakeFile) -> Vec<Result<SparseRangeItem, SparseError>> {
    let mut it = SparseRangeIter::new(SparseIter::new(0));
    let mut out = Vec::new();
    loop {
        let req = it.request();
        if req == Request::Stop {
            return out;
        }
        if let Some(x) = it.advance(file.answer(req)) {
            out.push(x);
        }
    }
}

fn ok_ranges(file: &FakeFile) -> Vec<SparseRangeItem> {
    ranges_of(file).into_iter().map(|r| r.unwrap()).collect()
}

fn range(kind: ItemKind, start: u64, end: u64) -> SparseRangeItem {
    SparseRangeItem { kind, start, end }
}

fn point(kind: ItemKind, offset: u64) -> SparseItem {
    SparseItem { kind, offset }
}

fn assert_tiles(rs: &[SparseRangeItem], len: u64) {
    if rs.is_empty() {
        assert_eq!(len, 0);
        return;
    }
    assert_eq!(rs[0].start, 0);
    assert_eq!(rs[rs.len() - 1].end, len);
    for r in rs {
        assert!(r.start < r.end);
    }
    for w in rs.windows(2) {
        assert_eq!(w[0].end, w[1].start);
        assert_ne!(w[0].kind, w[1].kind);
    }
}

#[test]
fn dd_ct_1() {
    // dd if=/dev/zero bs=1 count=1 seek=10G: one byte of data after a 10 GiB hole
    let seek = 10 * GIB;
    let file = FakeFile { len: seek + 1, data: vec![(seek, seek + 1)] };
    assert_eq!(
        ok_ranges(&file),
        vec![range(ItemKind::Hole, 0, 10737418240), range(ItemKind::Data, 10737418240, 10737418241)]
    );
    assert_eq!(
        points_of(&file, 0),
        vec![Ok(point(ItemKind::Data, 10737418240)), Ok(point(ItemKind::Hole, 10737418241))]
    );
}

#[test]
fn dd_ct_0() {
    // dd if=/dev/zero bs=1 count=0 seek=10G: a file that is one 10 GiB hole
    let file = FakeFile { len: 10 * GIB, data: vec![] };
    assert_eq!(ok_ranges(&file), vec![range(ItemKind::Hole, 0, 10 * GIB)]);
    assert_eq!(points_of(&file, 0), vec![Ok(point(ItemKind::Hole, 10 * GIB))]);
}

#[test]
fn empty_file_has_no_points_and_no_ranges() {
    let file = FakeFile { len: 0, data: vec![] };
    assert!(points_of(&file, 0).is_empty());
    assert!(ranges_of(&file).is_empty());
}

#[test]
fn all_data_file_is_one_data_range() {
    let file = FakeFile { len: 10, data: vec![(0, 10)] };
    assert_eq!(
        points_of(&file, 0),
        vec![Ok(point(ItemKind::Data, 0)), Ok(point(ItemKind::Hole, 10))]
    );
    assert_eq!(ok_ranges(&file), vec![range(ItemKind::Data, 0, 10)]);
}

#[test]
fn trailing_hole_is_closed_at_end_of_file() {
    let file = FakeFile { len: 10, data: vec![(0, 5)] };
    assert_eq!(
        points_of(&file, 0),
        vec![
            Ok(point(ItemKind::Data, 0)),
            Ok(point(ItemKind::Hole, 5)),
            Ok(point(ItemKind::Hole, 10))
        ]
    );
    assert_eq!(ok_ranges(&file), vec![range(ItemKind::Data, 0, 5), range(ItemKind::Hole, 5, 10)]);
}

#[test]
fn ranges_tile_the_file_and_alternate() {
    let files = vec![
        FakeFile { len: 100, data: vec![(10, 20), (30, 40), (90, 100)] },
        FakeFile { len: 100, data: vec![(0, 1), (50, 60)] },
        FakeFile { len: 4096, data: vec![(4095, 4096)] },
        FakeFile { len: 1, data: vec![(0, 1)] },
        FakeFile { len: 1, data: vec![] },
    ];
    for file in &files {
        assert_tiles(&ok_ranges(file), file.len);
    }
    assert_eq!(
        ok_ranges(&files[0]),
        vec![
            range(ItemKind::Hole, 0, 10),
            range(ItemKind::Data, 10, 20),
            range(ItemKind::Hole, 20, 30),
            range(ItemKind::Data, 30, 40),
            range(ItemKind::Hole, 40, 90),
            range(ItemKind::Data, 90, 100),
        ]
    );
}

#[test]
fn two_iterators_over_one_file_agree() {
    let file = FakeFile { len: 1000, data: vec![(100, 200), (700, 800)] };
    assert_eq!(points_of(&file, 0), points_of(&file, 0));
    assert_eq!(ranges_of(&file), ranges_of(&file));
}

#[test]
fn data_seek_past_end_is_no_more_data() {
    let modes = SeekModes::host();
    assert_eq!(modes.classify(-1, 6), Reply::NoMoreData);
    let file = FakeFile { len: 10, data: vec![(0, 10)] };
    for off in [10u64, 11, 1000] {
        let req = Request::Seek { want: ItemKind::Data, offset: off };
        assert_eq!(file.answer(req), Reply::NoMoreData);
        assert!(points_of(&file, off).is_empty());
    }
}

#[test]
fn finished_iterator_stays_finished() {
    let file = FakeFile { len: 10, data: vec![(0, 10)] };
    let mut it = SparseIter::new(0);
    while it.request() != Request::Stop {
        let req = it.request();
        it.advance(file.answer(req));
    }
    let state = it.current();
    assert_eq!(state.phase, Phase::Done);
    for _ in 0..3 {
        assert_eq!(it.request(), Request::Stop);
        assert_eq!(it.advance(Reply::Offset(3)), None);
        assert_eq!(it.advance(Reply::NoMoreData), None);
        assert_eq!(it.current(), state);
    }
}

#[test]
fn failed_iterator_stays_failed() {
    let mut it = SparseRangeIter::new(SparseIter::new(0));
    assert_eq!(it.advance(Reply::Error(SparseError::Os(5))), Some(Err(SparseError::Os(5))));
    assert_eq!(it.current().phase, Phase::Failed);
    for _ in 0..3 {
        assert_eq!(it.request(), Request::Stop);
        assert_eq!(it.advance(Reply::Offset(0)), None);
    }
}

#[test]
fn os_errors_are_classified() {
    let modes = SeekModes::host();
    assert_eq!(modes.classify(42, 0), Reply::Offset(42));
    assert_eq!(modes.classify(0, 6), Reply::Offset(0));
    assert_eq!(modes.classify(-1, 22), Reply::Error(SparseError::Os(22)));
    assert_eq!(modes.classify(-1, 9), Reply::Error(SparseError::Os(9)));
}

#[test]
fn unknown_whence_keeps_its_code() {
    let file = FakeFile { len: 10, data: vec![] };
    let modes = SeekModes::host();
    let (ret, errno) = file.lseek(OsCall { offset: 0, whence: 99 });
    assert_eq!(modes.classify(ret, errno), Reply::Error(SparseError::Os(22)));
}

#[test]
fn large_offsets_overflow() {
    let modes = SeekModes::host();
    let req = Request::Seek { want: ItemKind::Hole, offset: MAX_OS_OFFSET + 1 };
    assert_eq!(modes.os_call(req), Err(SparseError::OffsetOverflow));
    let req = Request::Seek { want: ItemKind::Hole, offset: MAX_OS_OFFSET };
    assert_eq!(modes.os_call(req), Ok(OsCall { offset: i64::MAX, whence: 4 }));
    assert_eq!(to_os_offset(u64::MAX), None);
    assert_eq!(to_os_offset(7), Some(7));
    let mut it = SparseIter::new(u64::MAX);
    let req = it.request();
    assert_eq!(req, Request::Seek { want: ItemKind::Data, offset: u64::MAX });
    let reply = match modes.os_call(req) {
        Ok(_) => panic!("offset should not fit"),
        Err(e) => Reply::Error(e),
    };
    assert_eq!(it.advance(reply), Some(Err(SparseError::OffsetOverflow)));
    assert_eq!(it.request(), Request::Stop);
}

#[test]
fn backward_answer_is_a_protocol_error() {
    let mut it = SparseIter::new(0);
    assert_eq!(it.advance(Reply::Offset(8)), Some(Ok(point(ItemKind::Data, 8))));
    assert_eq!(it.request(), Request::Seek { want: ItemKind::Hole, offset: 8 });
    assert_eq!(it.advance(Reply::Offset(7)), Some(Err(SparseError::Protocol)));
    assert_eq!(it.request(), Request::Stop);
}

#[test]
fn standing_answer_is_a_protocol_error() {
    let mut it = SparseIter::new(0);
    assert_eq!(it.advance(Reply::Offset(0)), Some(Ok(point(ItemKind::Data, 0))));
    assert_eq!(it.advance(Reply::Offset(4)), Some(Ok(point(ItemKind::Hole, 4))));
    assert_eq!(it.request(), Request::Seek { want: ItemKind::Data, offset: 4 });
    assert_eq!(it.advance(Reply::Offset(4)), Some(Err(SparseError::Protocol)));
}

#[test]
fn each_seek_starts_at_the_last_answer() {
    let file = FakeFile { len: 100, data: vec![(10, 20), (30, 40)] };
    let mut it = SparseIter::new(0);
    let mut asked = Vec::new();
    while it.request() != Request::Stop {
        let req = it.request();
        asked.push(req);
        it.advance(file.answer(req));
    }
    assert_eq!(
        asked,
        vec![
            Request::Seek { want: ItemKind::Data, offset: 0 },
            Request::Seek { want: ItemKind::Hole, offset: 10 },
            Request::Seek { want: ItemKind::Data, offset: 20 },
            Request::Seek { want: ItemKind::Hole, offset: 30 },
            Request::Seek { want: ItemKind::Data, offset: 40 },
            Request::Length,
        ]
    );
}

#[test]
fn ranges_of_a_started_points_iterator() {
    let mut points = SparseIter::new(0);
    assert_eq!(points.advance(Reply::Offset(0)), Some(Ok(point(ItemKind::Data, 0))));
    assert_eq!(points.advance(Reply::Offset(6)), Some(Ok(point(ItemKind::Hole, 6))));
    let mut it = SparseRangeIter::new(points);
    assert_eq!(it.advance(Reply::Offset(9)), Some(Ok(range(ItemKind::Hole, 6, 9))));
    assert_eq!(it.advance(Reply::Offset(12)), Some(Ok(range(ItemKind::Data, 9, 12))));
    assert_eq!(it.advance(Reply::NoMoreData), None);
    assert_eq!(it.advance(Reply::Offset(15)), Some(Ok(range(ItemKind::Hole, 12, 15))));
    assert_eq!(it.request(), Request::Stop);
}

#[test]
fn missing_hole_is_a_protocol_error() {
    let mut it = SparseIter::new(0);
    assert_eq!(it.advance(Reply::Offset(0)), Some(Ok(point(ItemKind::Data, 0))));
    assert_eq!(it.advance(Reply::NoMoreData), Some(Err(SparseError::Protocol)));
}

#[test]
fn shrunk_file_ends_the_iteration() {
    // data [0, 5) in a 10-byte file, then cut to 3 bytes after the hole point at 5
    let mut it = SparseIter::new(0);
    assert_eq!(it.advance(Reply::Offset(0)), Some(Ok(point(ItemKind::Data, 0))));
    assert_eq!(it.advance(Reply::Offset(5)), Some(Ok(point(ItemKind::Hole, 5))));
    assert_eq!(it.advance(Reply::NoMoreData), None);
    assert_eq!(it.request(), Request::Length);
    assert_eq!(it.advance(Reply::Offset(3)), None);
    assert_eq!(it.current().phase, Phase::Done);
    assert_eq!(it.request(), Request::Stop);
}

#[test]
fn platform_numbers() {
    assert_eq!(
        SeekModes::host(),
        SeekModes { data: 3, hole: 4, end: 2, no_such_region: 6 }
    );
    let apple = SeekModes::apple();
    assert_eq!((apple.data, apple.hole), (4, 3));
    let req = Request::Seek { want: ItemKind::Data, offset: 12 };
    assert_eq!(apple.os_call(req), Ok(OsCall { offset: 12, whence: 4 }));
    assert_eq!(apple.os_call(Request::Length), Ok(OsCall { offset: 0, whence: 2 }));
}

#[test]
fn other_kind_flips() {
    assert_eq!(ItemKind::Data.other(), ItemKind::Hole);
    assert_eq!(ItemKind::Hole.other(), ItemKind::Data);
}

#[test]
fn transition_is_the_step() {
    let it = SparseIter::new(3);
    let (next, out) = fs_sparse::transition(it.current(), Reply::Offset(3));
    assert_eq!(out, Some(Ok(point(ItemKind::Data, 3))));
    assert_eq!(next.phase, Phase::Seek(ItemKind::Hole));
    assert_eq!(next.cursor, 3);
    assert!(next.started);
}
