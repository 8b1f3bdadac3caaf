//! Enumerate the data and hole layout of sparse files.
//!
//! The library is a pair of state machines. [`SparseIter`] turns the answers of the
//! operating system's seek-for-data / seek-for-hole primitive into an ordered sequence
//! of boundary points, and [`SparseRangeIter`] pairs consecutive points into half-open
//! ranges. Neither one touches a file: each asks for one seek through `request`, and the
//! caller performs it and hands the answer back through `advance`. [`SeekModes`] holds
//! the per-platform constants that turn a request into a seek call and a raw seek result
//! back into an answer.
//!
//! Points alternate between `Data` and `Hole`, beginning with the first data region. The
//! point sequence of a non-empty file ends with a `Hole` point at the end-of-file offset:
//! the zero-length virtual hole that every file has, or, where the file ends in a hole, a
//! final point taken from a length query. So the last range is closed by that point, and
//! the range adapter only adds the hole that a file may begin with.
//!
//! The seek primitive may move the file's cursor: reads that rely on the cursor while
//! iterating see platform dependent positions. Writes made while iterating may turn holes
//! into data after they were reported.

pub mod item;
pub mod platform;
pub mod points;
pub mod ranges;

pub use item::{ItemKind, SparseError, SparseItem, SparseRangeItem};

pub use platform::{MAX_OS_OFFSET, OsCall, SeekModes, to_os_offset};
pub use points::{Phase, PointState, Reply, Request, SparseIter, transition};
pub use ranges::SparseRangeIter;

