use vstd::prelude::*;

use crate::item::{ItemKind, SparseError};
use crate::points::{Reply, Request};

verus! {

/// The largest offset that the signed offset type of a seek call holds.
pub const MAX_OS_OFFSET: u64 = 0x7fff_ffff_ffff_ffff;

/// The platform's numbers for the seek call and its error codes, chosen once per target.
#[derive(Clone, Copy, Debug, PartialEq, Eq, Structural)]
pub struct SeekModes {
    /// `whence` that seeks the next data region (`SEEK_DATA`).
    pub data: i32,
    /// `whence` that seeks the next hole (`SEEK_HOLE`).
    pub hole: i32,
    /// `whence` that seeks relative to end-of-file (`SEEK_END`).
    pub end: i32,
    /// The error code for "no such region at or after the offset" (`ENXIO`).
    pub no_such_region: i32,
}

/// One seek call: `lseek(fd, offset, whence)`.
#[derive(Clone, Copy, Debug, PartialEq, Eq, Structural)]
pub struct OsCall {
    /// The offset argument.
    pub offset: i64,
    /// The `whence` argument.
    pub whence: i32,
}

/// Relies on the libc crate's Linux constants `SEEK_DATA`, `SEEK_HOLE`, `SEEK_END` and
/// `ENXIO`, whose values its source gives as 3, 4, 2 and 6.
#[verifier::external_body]
fn libc_seek_modes() -> (r: SeekModes)
    ensures
        r == (SeekModes { data: 3, hole: 4, end: 2, no_such_region: 6 }),
{
    SeekModes {
        data: libc::SEEK_DATA,
        hole: libc::SEEK_HOLE,
        end: libc::SEEK_END,
        no_such_region: libc::ENXIO,
    }
}

/// `off` as the signed offset of a seek call, or `None` where it does not fit: a seek
/// never gets a truncated offset.
pub fn to_os_offset(off: u64) -> (r: Option<i64>)
    ensures
        r is Some <==> off <= MAX_OS_OFFSET,
        r matches Some(v) ==> v as int == off as int,
{
    if off <= MAX_OS_OFFSET {
        Some(off as i64)
    } else {
        None
    }
}

/// What a seek call's raw result says, given the error code it left where it failed
/// (`ret < 0`).
pub open spec fn spec_classify(modes: SeekModes, ret: i64, errno: i32) -> Reply {
    if ret >= 0 {
        Reply::Offset(ret as u64)
    } else if errno == modes.no_such_region {
        Reply::NoMoreData
    } else {
        Reply::Error(SparseError::Os(errno))
    }
}

impl SeekModes {
    /// The numbers of Linux, as the libc crate gives them.
    pub fn host() -> (r: SeekModes)
        ensures
            r == (SeekModes { data: 3, hole: 4, end: 2, no_such_region: 6 }),
    {
        libc_seek_modes()
    }

    /// The numbers of Apple platforms, whose headers do not name `SEEK_DATA` and
    /// `SEEK_HOLE`.
    pub fn apple() -> (r: SeekModes)
        ensures
            r == (SeekModes { data: 4, hole: 3, end: 2, no_such_region: 6 }),
    {
        SeekModes { data: 4, hole: 3, end: 2, no_such_region: 6 }
    }

    /// The `whence` that seeks a region of `kind`.
    pub open spec fn spec_whence(self, kind: ItemKind) -> i32 {
        match kind {
            ItemKind::Data => self.data,
            ItemKind::Hole => self.hole,
        }
    }

    /// The seek call that performs `req`, or `OffsetOverflow` where its offset does not
    /// fit the call.
    pub fn os_call(&self, req: Request) -> (r: Result<OsCall, SparseError>)
        requires
            req != Request::Stop,
        ensures
            req matches Request::Seek { want, offset } ==> (
                if offset <= MAX_OS_OFFSET {
                    r == Ok::<OsCall, SparseError>(OsCall { offset: offset as i64, whence: self.spec_whence(want) })
                } else {
                    r == Err::<OsCall, SparseError>(SparseError::OffsetOverflow)
                }
            ),
            req == Request::Length ==> r == Ok::<OsCall, SparseError>(OsCall { offset: 0, whence: self.end }),
    {
        match req {
            Request::Seek { want, offset } => match to_os_offset(offset) {
                Some(off) => {
                    let whence = match want {
                        ItemKind::Data => self.data,
                        ItemKind::Hole => self.hole,
                    };
                    Ok(OsCall { offset: off, whence })
                },
                None => Err(SparseError::OffsetOverflow),
            },
            _ => Ok(OsCall { offset: 0, whence: self.end }),
        }
    }

    /// Turn the raw result of a seek call into the answer that the iterators take: an
    /// offset, the end of the data (`no_such_region`, never an error), or a fatal error
    /// that keeps every other error code as it came.
    pub fn classify(&self, ret: i64, errno: i32) -> (r: Reply)
        ensures
            r == spec_classify(*self, ret, errno),
    {
        if ret >= 0 {
            Reply::Offset(ret as u64)
        } else if errno == self.no_such_region {
            Reply::NoMoreData
        } else {
            Reply::Error(SparseError::Os(errno))
        }
    }
}

} // verus!
