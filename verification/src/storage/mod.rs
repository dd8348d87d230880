//! Storage layer: content lengths, in-memory and bounded storage.
use vstd::prelude::*;

pub mod adaptive;
pub mod bounded;
pub mod length_traits;
pub mod memory;
pub mod permanent;

verus! {

/// I/O errors of the storage that backs a buffer.
#[verifier::external_type_specification]
#[verifier::external_body]
pub struct ExIoError(std::io::Error);

/// Where a seek moves a position to, relative to the start, the end or the
/// current position.
#[derive(Clone, Copy, PartialEq, Eq, Debug)]
pub enum SeekFrom {
    /// An absolute position.
    Start(u64),
    /// An offset from the end of the data.
    End(i64),
    /// An offset from the current position.
    Current(i64),
}

/// Errors raised by the storage layer.
#[derive(Debug)]
pub enum StorageError {
    /// A read asked for more bytes than a bounded buffer holds.
    ReadTooLarge { read_len: usize, size: usize },
    /// The reader fell so far behind the writer that its data was overwritten.
    ReadTooFarBehind { read_position: usize, write_position: usize, size: usize },
    /// Seeking from the end is not supported by a bounded buffer.
    SeekFromEndUnsupported,
    /// A seek to a position before the start, or past the largest position.
    InvalidSeek,
    /// The requested buffer size does not fit in memory addresses.
    BufferSizeTooLarge { requested: u64 },
    /// A read reached the end of the stored data before filling the buffer.
    UnexpectedEof,
    /// The storage that backs the buffer failed.
    Io(std::io::Error),
}

/// `x + y` wrapped around the width of `usize`, as an atomic counter adds.
pub open spec fn wrapping_add_usize(x: usize, y: usize) -> usize {
    vstd::wrapping::usize_specs::wrapping_add(x, y)
}

/// The bytes of `s` after `data` is written at `pos`: the storage grows to hold
/// the write, and any hole before `pos` is filled with zeros.
pub open spec fn overwrite(s: Seq<u8>, pos: int, data: Seq<u8>) -> Seq<u8> {
    let new_len = if data.len() > 0 && pos + data.len() > s.len() {
        pos + data.len()
    } else {
        s.len() as int
    };
    Seq::new(
        new_len as nat,
        |i: int|
            if pos <= i < pos + data.len() {
                data[i - pos]
            } else if i < s.len() {
                s[i]
            } else {
                0u8
            },
    )
}

/// Random-access storage that can back a bounded buffer: it reads and writes
/// whole runs of bytes at absolute positions.
pub trait StorageBackend {
    /// The bytes held by the storage.
    spec fn stored(&self) -> Seq<u8>;

    /// Whether writes and flushes of this storage always succeed (as they do
    /// for a buffer in memory).
    spec fn writes_succeed(&self) -> bool;

    /// Whether reads of stored bytes always succeed (as they do for a buffer
    /// in memory).
    spec fn reads_succeed(&self) -> bool;

    /// Reads exactly `len` bytes starting at `position`.
    fn read_exact_at(&mut self, position: usize, len: usize) -> (r: Result<Vec<u8>, StorageError>)
        ensures
            final(self).stored() == old(self).stored(),
            final(self).writes_succeed() == old(self).writes_succeed(),
            final(self).reads_succeed() == old(self).reads_succeed(),
            old(self).reads_succeed() && (len == 0 || position + len <= old(self).stored().len())
                ==> r is Ok,
            r matches Ok(v) ==> {
                &&& v@.len() == len
                &&& len > 0 ==> position + len <= old(self).stored().len()
                &&& len > 0 ==> v@ == old(self).stored().subrange(position as int, position + len)
            },
    ;

    /// Writes all of `data` starting at `position`.
    fn write_all_at(&mut self, position: usize, data: &[u8]) -> (r: Result<(), StorageError>)
        requires
            position + data@.len() <= usize::MAX,
        ensures
            final(self).writes_succeed() == old(self).writes_succeed(),
            final(self).reads_succeed() == old(self).reads_succeed(),
            old(self).writes_succeed() ==> r is Ok,
            r is Ok ==> final(self).stored() == overwrite(old(self).stored(), position as int, data@),
    ;

    /// Flushes buffered writes; the stored bytes do not change.
    fn flush(&mut self) -> (r: Result<(), StorageError>)
        ensures
            final(self).writes_succeed() == old(self).writes_succeed(),
            final(self).reads_succeed() == old(self).reads_succeed(),
            old(self).writes_succeed() ==> r is Ok,
            final(self).stored() == old(self).stored(),
    ;
}

/// A content length that can change while the content is processed.
///
/// `reported` is the length announced by the server; `gathered` is the length
/// known once the whole content has been processed, if it is known yet.
#[derive(Clone, Copy, PartialEq, Eq, Debug)]
pub struct DynamicLength {
    /// Length reported by the server.
    pub reported: u64,
    /// Length gathered after all processing, once known.
    pub gathered: Option<u64>,
}

/// The length of a stream: fixed, changing during processing, or unknown.
#[derive(Clone, Copy, PartialEq, Eq, Debug)]
pub enum ContentLength {
    /// A length that stays the same throughout processing.
    Static(u64),
    /// A length that may change while the content is processed.
    Dynamic(DynamicLength),
    /// No length is known (infinite or chunked streams).
    Unknown,
}

impl ContentLength {
    /// The value that `current_value` returns.
    pub open spec fn spec_current_value(self) -> Option<u64> {
        match self {
            ContentLength::Static(len) => Some(len),
            ContentLength::Dynamic(len) => Some(
                match len.gathered {
                    Some(g) => g,
                    None => len.reported,
                },
            ),
            ContentLength::Unknown => None,
        }
    }

    /// Creates a static content length.
    pub fn new_static(value: u64) -> (r: Self)
        ensures
            r == ContentLength::Static(value),
    {
        ContentLength::Static(value)
    }

    /// Creates a dynamic content length.
    pub fn new_dynamic(value: DynamicLength) -> (r: Self)
        ensures
            r == ContentLength::Dynamic(value),
    {
        ContentLength::Dynamic(value)
    }

    /// Creates an unknown content length.
    pub fn new_unknown() -> (r: Self)
        ensures
            r == ContentLength::Unknown,
    {
        ContentLength::Unknown
    }

    /// The current value: the exact length for a static length, the gathered
    /// length (or, until it is known, the reported one) for a dynamic length,
    /// and `None` for an unknown length.
    pub fn current_value(&self) -> (r: Option<u64>)
        ensures
            r == self.spec_current_value(),
    {
        match self {
            ContentLength::Static(len) => Some(*len),
            ContentLength::Dynamic(len) => Some(
                match len.gathered {
                    Some(g) => g,
                    None => len.reported,
                },
            ),
            ContentLength::Unknown => None,
        }
    }
}

} // verus!
