//! The reader side of a stream: whether a read or a seek may go ahead at once,
//! must wait for the download, or fails.
use vstd::prelude::*;

use crate::source::handle::{is_run, Downloaded};
use crate::storage::SeekFrom;

verus! {

/// Errors of reads and seeks on a stream.
#[derive(Clone, Copy, Debug, PartialEq, Eq)]
pub enum StreamError {
    /// The download task failed.
    StreamFailed,
    /// The read buffer is larger than the storage can hold.
    BufferTooLarge { buf_len: usize, capacity: usize },
    /// The seek position lies beyond what the storage can hold ahead of the reader.
    SeekTooFar { position: u64, max: u64 },
    /// Seeking from the end needs a known content length.
    SeekFromEndUnknownLength,
}

/// What a read does.
#[derive(Clone, Copy, Debug, PartialEq, Eq)]
pub enum ReadPlan {
    /// The requested bytes are downloaded: read now.
    ReadNow,
    /// Wait until the download reaches `requested`, then read.
    WaitFor { requested: u64 },
}

/// What a seek does.
#[derive(Clone, Copy, Debug, PartialEq, Eq)]
pub enum SeekPlan {
    /// The position is downloaded: move the reader there now.
    SeekNow { position: u64 },
    /// Ask the download to restart at `position`, wait for it, then move there.
    WaitFor { position: u64 },
}

/// `a + b`, saturating at `u64::MAX`.
pub open spec fn saturating_add_u64(a: u64, b: u64) -> u64 {
    if a + b > u64::MAX {
        u64::MAX
    } else {
        (a + b) as u64
    }
}

/// Whether `position` is downloaded in a run that reaches at least `end`.
pub open spec fn downloaded_through(downloaded: Set<u64>, position: u64, end: u64) -> bool {
    exists|s: u64, e: u64|
        #![trigger is_run(downloaded, s, e)]
        s <= position < e && is_run(downloaded, s, e) && e >= end
}

/// What a reader of a stream knows of its limits: the content length, if
/// known, and the capacity of the storage, if bounded.
#[derive(Clone, Copy, Debug, PartialEq, Eq)]
pub struct StreamLimits {
    /// The content length of the stream, if known.
    pub content_length: Option<u64>,
    /// The most bytes the storage holds at a time, if bounded.
    pub storage_capacity: Option<usize>,
}

impl StreamLimits {
    /// `requested`, capped at the content length when it is known.
    pub open spec fn spec_normalize(self, requested: u64) -> u64 {
        match self.content_length {
            Some(len) => if requested < len {
                requested
            } else {
                len
            },
            None => requested,
        }
    }

    /// The absolute position a seek asks for.
    pub open spec fn spec_absolute(self, from: SeekFrom, reader_position: u64) -> Option<u64> {
        match from {
            SeekFrom::Start(p) => Some(p),
            SeekFrom::Current(off) => Some(((reader_position as i64) + off) as u64),
            SeekFrom::End(off) => match self.content_length {
                Some(len) => Some(((len as i64) + off) as u64),
                None => None,
            },
        }
    }

    /// Whether computing the absolute position overflows a signed 64-bit value.
    pub open spec fn absolute_overflows(self, from: SeekFrom, reader_position: u64) -> bool {
        match from {
            SeekFrom::Start(_) => false,
            SeekFrom::Current(off) => !(i64::MIN <= (reader_position as i64) + off <= i64::MAX),
            SeekFrom::End(off) => match self.content_length {
                Some(len) => !(i64::MIN <= (len as i64) + off <= i64::MAX),
                None => false,
            },
        }
    }

    /// Creates the limits of a stream.
    pub fn new(content_length: Option<u64>, storage_capacity: Option<usize>) -> (r: Self)
        ensures
            r.content_length == content_length,
            r.storage_capacity == storage_capacity,
    {
        StreamLimits { content_length, storage_capacity }
    }

    /// The content length of the stream, if known.
    pub fn content_length(&self) -> (r: Option<u64>)
        ensures
            r == self.content_length,
    {
        self.content_length
    }

    /// Caps a requested position at the end of the stream, when known.
    pub fn normalize_requested_position(&self, requested: u64) -> (r: u64)
        ensures
            r == self.spec_normalize(requested),
    {
        match self.content_length {
            Some(len) => if requested < len {
                requested
            } else {
                len
            },
            None => requested,
        }
    }

    /// Fails once the download task has failed.
    pub fn check_for_failure(&self, failed: bool) -> (r: Result<(), StreamError>)
        ensures
            r == if failed {
                Err::<(), StreamError>(StreamError::StreamFailed)
            } else {
                Ok(())
            },
    {
        if failed {
            Err(StreamError::StreamFailed)
        } else {
            Ok(())
        }
    }

    /// Fails when a read buffer exceeds the storage capacity (an unbounded
    /// storage has capacity `usize::MAX`).
    pub fn check_for_excessive_read(&self, buf_len: usize) -> (r: Result<(), StreamError>)
        ensures
            ({
                let capacity: usize = match self.storage_capacity {
                    Some(c) => c,
                    None => usize::MAX,
                };
                r == if buf_len > capacity {
                    Err::<(), StreamError>(StreamError::BufferTooLarge { buf_len, capacity })
                } else {
                    Ok(())
                }
            }),
    {
        let capacity: usize = match self.storage_capacity {
            Some(c) => c,
            None => usize::MAX,
        };
        if buf_len > capacity {
            Err(StreamError::BufferTooLarge { buf_len, capacity })
        } else {
            Ok(())
        }
    }

    /// Fails when a bounded storage cannot hold the bytes between the reader
    /// and the seek position.
    pub fn check_for_excessive_seek(&self, position: u64, reader_position: u64) -> (r: Result<(), StreamError>)
        ensures
            r == match self.storage_capacity {
                Some(c) => {
                    let max = saturating_add_u64(reader_position, c as u64);
                    if position > max {
                        Err::<(), StreamError>(StreamError::SeekTooFar { position, max })
                    } else {
                        Ok(())
                    }
                },
                None => Ok(()),
            },
    {
        match self.storage_capacity {
            Some(c) => {
                let cap = c as u64;
                let max: u64 = if reader_position > u64::MAX - cap {
                    u64::MAX
                } else {
                    reader_position + cap
                };
                if position > max {
                    Err(StreamError::SeekTooFar { position, max })
                } else {
                    Ok(())
                }
            },
            None => Ok(()),
        }
    }

    /// The absolute position a seek asks for; seeking from the end fails when
    /// the length is unknown.
    pub fn get_absolute_seek_position(&self, from: SeekFrom, reader_position: u64) -> (r: Result<
        u64,
        StreamError,
    >)
        requires
            !self.absolute_overflows(from, reader_position),
        ensures
            r == match self.spec_absolute(from, reader_position) {
                Some(p) => Ok::<u64, StreamError>(p),
                None => Err(StreamError::SeekFromEndUnknownLength),
            },
    {
        match from {
            SeekFrom::Start(p) => Ok(p),
            SeekFrom::Current(off) => Ok(((reader_position as i64) + off) as u64),
            SeekFrom::End(off) => match self.content_length {
                Some(len) => Ok(((len as i64) + off) as u64),
                None => Err(StreamError::SeekFromEndUnknownLength),
            },
        }
    }

    /// Decides a read of `buf_len` bytes from `stream_position`: it fails when
    /// the download failed or the buffer is too large; it goes ahead when the
    /// reader's position is downloaded through the requested end (capped at the
    /// content length); otherwise it waits for that end.
    pub fn read_plan(
        &self,
        failed: bool,
        downloaded: &Downloaded,
        stream_position: u64,
        buf_len: usize,
    ) -> (r: Result<ReadPlan, StreamError>)
        requires
            stream_position + buf_len <= u64::MAX,
        ensures
            ({
                let capacity: usize = match self.storage_capacity {
                    Some(c) => c,
                    None => usize::MAX,
                };
                let requested = self.spec_normalize((stream_position + buf_len) as u64);
                if failed {
                    r == Err::<ReadPlan, StreamError>(StreamError::StreamFailed)
                } else if buf_len > capacity {
                    r == Err::<ReadPlan, StreamError>(StreamError::BufferTooLarge { buf_len, capacity })
                } else if downloaded_through(downloaded.view(), stream_position, requested) {
                    r == Ok::<ReadPlan, StreamError>(ReadPlan::ReadNow)
                } else {
                    r == Ok::<ReadPlan, StreamError>(ReadPlan::WaitFor { requested })
                }
            }),
    {
        if failed {
            return Err(StreamError::StreamFailed);
        }
        match self.check_for_excessive_read(buf_len) {
            Ok(()) => {},
            Err(e) => return Err(e),
        }
        let requested = self.normalize_requested_position(stream_position + buf_len as u64);
        match downloaded.get(stream_position) {
            Some(range) => {
                proof {
                    lemma_through_unique(downloaded.view(), range.start, range.end, stream_position, requested);
                }
                if range.end >= requested {
                    Ok(ReadPlan::ReadNow)
                } else {
                    Ok(ReadPlan::WaitFor { requested })
                }
            },
            None => Ok(ReadPlan::WaitFor { requested }),
        }
    }

    /// Decides a seek: it fails when the download failed, the position cannot
    /// be computed, or a bounded storage cannot reach it; it moves at once when
    /// the (capped) position is downloaded; otherwise it waits for the download
    /// to restart there.
    pub fn seek_plan(
        &self,
        failed: bool,
        downloaded: &Downloaded,
        from: SeekFrom,
        reader_position: u64,
    ) -> (r: Result<SeekPlan, StreamError>)
        requires
            !self.absolute_overflows(from, reader_position),
        ensures
            if failed {
                r == Err::<SeekPlan, StreamError>(StreamError::StreamFailed)
            } else {
                match self.spec_absolute(from, reader_position) {
                    None => r == Err::<SeekPlan, StreamError>(StreamError::SeekFromEndUnknownLength),
                    Some(abs) => {
                        let position = self.spec_normalize(abs);
                        match self.storage_capacity {
                            Some(c) if position > saturating_add_u64(reader_position, c as u64) => r
                                == Err::<SeekPlan, StreamError>(
                                StreamError::SeekTooFar {
                                    position,
                                    max: saturating_add_u64(reader_position, c as u64),
                                },
                            ),
                            _ => if downloaded.view().contains(position) {
                                r == Ok::<SeekPlan, StreamError>(SeekPlan::SeekNow { position })
                            } else {
                                r == Ok::<SeekPlan, StreamError>(SeekPlan::WaitFor { position })
                            },
                        }
                    },
                }
            },
    {
        if failed {
            return Err(StreamError::StreamFailed);
        }
        let abs = match self.get_absolute_seek_position(from, reader_position) {
            Ok(p) => p,
            Err(e) => return Err(e),
        };
        let position = self.normalize_requested_position(abs);
        match self.check_for_excessive_seek(position, reader_position) {
            Ok(()) => {},
            Err(e) => return Err(e),
        }
        if downloaded.contains(position) {
            Ok(SeekPlan::SeekNow { position })
        } else {
            Ok(SeekPlan::WaitFor { position })
        }
    }
}

/// Whether a position is downloaded through `end` is read off the one run
/// around it.
proof fn lemma_through_unique(c: Set<u64>, s: u64, e: u64, p: u64, end: u64)
    requires
        s <= p < e,
        is_run(c, s, e),
    ensures
        downloaded_through(c, p, end) == (e >= end),
{
    if downloaded_through(c, p, end) {
        let (s2, e2) = choose|s2: u64, e2: u64|
            #![trigger is_run(c, s2, e2)]
            s2 <= p < e2 && is_run(c, s2, e2) && e2 >= end;
        if e < e2 {
            assert(c.contains(e));
        }
        if e2 < e {
            assert(c.contains(e2));
        }
    }
}

/// A seek relative to the reader moves it by the signed offset: forward for a
/// positive offset, backward for a negative one, nowhere for zero; so the
/// target grows with the offset. A seek from the start lands on the position
/// asked for, and a seek from the end lands the offset away from the length.
pub proof fn lemma_seek_targets(limits: StreamLimits, reader_position: u64, off: i64, other: i64, p: u64)
    requires
        reader_position <= i64::MAX,
        0 <= reader_position + off <= u64::MAX,
        0 <= reader_position + other <= u64::MAX,
    ensures
        limits.spec_absolute(SeekFrom::Current(off), reader_position) == Some(
            (reader_position + off) as u64,
        ),
        off <= other ==> limits.spec_absolute(SeekFrom::Current(off), reader_position)->0
            <= limits.spec_absolute(SeekFrom::Current(other), reader_position)->0,
        limits.spec_absolute(SeekFrom::Current(0), reader_position) == Some(reader_position),
        limits.spec_absolute(SeekFrom::Start(p), reader_position) == Some(p),
        match limits.content_length {
            Some(len) => 0 <= len + off <= u64::MAX && len <= i64::MAX ==> limits.spec_absolute(
                SeekFrom::End(off),
                reader_position,
            ) == Some((len + off) as u64),
            None => limits.spec_absolute(SeekFrom::End(off), reader_position) is None,
        },
{
}

} // verus!
