//! A fixed-size circular buffer on top of another storage. The reader and the
//! writer keep their own positions in the stream; a stream position `p` lives
//! at `p % size` in the underlying storage. The writer never overwrites bytes
//! the reader has not read yet: while the buffer is full it writes nothing, so
//! the reader can catch up. Bytes stay in the buffer until they are
//! overwritten, so a reader may seek back over them and read them again.
use vstd::prelude::*;

use super::{overwrite, wrapping_add_usize, ContentLength, SeekFrom, StorageBackend, StorageError};

verus! {

/// `x % m` for `0 <= x < 2 * m`: the value itself, or the value minus `m`.
proof fn lemma_mod_wrap(x: int, m: int)
    requires
        0 < m,
        0 <= x < 2 * m,
    ensures
        x % m == if x < m {
            x
        } else {
            x - m
        },
{
    if x < m {
        vstd::arithmetic::div_mod::lemma_small_mod(x as nat, m as nat);
    } else {
        vstd::arithmetic::div_mod::lemma_mod_sub_multiples_vanish(x, m);
        vstd::arithmetic::div_mod::lemma_small_mod((x - m) as nat, m as nat);
    }
}

/// Creates a [`BoundedStorage`] of a fixed size on top of another provider.
#[derive(Clone, Debug)]
pub struct BoundedStorageProvider<T> {
    inner: T,
    buffer_size: usize,
}

impl<T> BoundedStorageProvider<T> {
    /// The configured buffer size.
    pub closed spec fn spec_buffer_size(&self) -> usize {
        self.buffer_size
    }

    /// The wrapped provider.
    pub closed spec fn spec_inner(&self) -> T {
        self.inner
    }

    /// Creates a provider with the given (non-zero) buffer size.
    pub fn new(inner: T, buffer_size: usize) -> (r: Self)
        requires
            buffer_size > 0,
        ensures
            r.spec_buffer_size() == buffer_size,
            r.spec_inner() == inner,
    {
        BoundedStorageProvider { inner, buffer_size }
    }

    /// The number of bytes the buffer holds at a time.
    pub fn max_capacity(&self) -> (r: Option<usize>)
        ensures
            r == Some(self.spec_buffer_size()),
    {
        Some(self.buffer_size)
    }

    /// The size to ask of the inner storage: the smaller of the content length,
    /// when one is known, and the configured buffer size. This avoids allocating
    /// more than the stream holds.
    pub fn buffer_size_for(&self, content_length: ContentLength) -> (r: u64)
        ensures
            r == match content_length.spec_current_value() {
                Some(len) => if len < self.spec_buffer_size() {
                    len
                } else {
                    self.spec_buffer_size() as u64
                },
                None => self.spec_buffer_size() as u64,
            },
    {
        match content_length.current_value() {
            Some(len) => if len < self.buffer_size as u64 {
                len
            } else {
                self.buffer_size as u64
            },
            None => self.buffer_size as u64,
        }
    }

    /// Gives back the wrapped provider.
    pub fn into_inner(self) -> (r: T)
        ensures
            r == self.spec_inner(),
    {
        self.inner
    }
}

/// The state shared by the reader and the writer of a bounded buffer: the
/// counts of bytes read and written, the two stream positions, and the size.
#[derive(Clone, Copy, Debug, PartialEq, Eq)]
pub struct SharedInfo {
    /// Bytes read so far.
    pub read: usize,
    /// Bytes written so far.
    pub written: usize,
    /// Stream position of the reader.
    pub read_position: usize,
    /// Stream position of the writer.
    pub write_position: usize,
    /// Size of the buffer.
    pub size: usize,
}

impl SharedInfo {
    /// A fresh state for a buffer of `size` bytes.
    pub open spec fn initial(size: usize) -> SharedInfo {
        SharedInfo { read: 0, written: 0, read_position: 0, write_position: 0, size }
    }

    /// How far the writer is ahead of the reader: the bytes written and not
    /// yet read, zero when the writer is not ahead.
    pub open spec fn lag(self) -> int {
        if self.write_position > self.read_position {
            self.write_position - self.read_position
        } else {
            0
        }
    }

    /// How many bytes a read of `len` returns once it passes its checks: `len`,
    /// capped by what the writer has written past the reader.
    pub open spec fn read_count(self, len: int) -> int {
        let available = self.write_position - self.read_position;
        if len < available {
            len
        } else {
            available
        }
    }

    /// Where a read starts in the buffer.
    pub open spec fn read_start(self) -> int {
        (self.read_position as int) % (self.size as int)
    }

    /// The length of the first segment of a read of `len`: up to the end of
    /// the buffer at most.
    pub open spec fn read_first_len(self, len: int) -> int {
        let to_end = self.size - self.read_start();
        if self.read_count(len) < to_end {
            self.read_count(len)
        } else {
            to_end
        }
    }

    /// The bytes a read of `len` returns from the stored bytes `stored`: from
    /// the read start towards the end of the buffer, then on from its start.
    pub open spec fn read_bytes(self, stored: Seq<u8>, len: int) -> Seq<u8> {
        let start = self.read_start();
        let first = self.read_first_len(len);
        stored.subrange(start, start + first) + stored.subrange(0, self.read_count(len) - first)
    }

    /// Whether a read of `len` goes on to copy bytes: it asks for something not
    /// larger than the buffer, the writer is ahead of the reader, and no more
    /// than a buffer ahead.
    pub open spec fn read_copies(self, len: int) -> bool {
        &&& 0 < len <= self.size
        &&& self.read_position < self.write_position
        &&& self.lag() <= self.size
    }

    /// The state after a read of `len` that copied.
    pub open spec fn after_read(self, len: int) -> SharedInfo {
        SharedInfo {
            read_position: (self.read_position + self.read_count(len)) as usize,
            read: wrapping_add_usize(self.read, self.read_count(len) as usize),
            ..self
        }
    }

    /// Free room for the writer: the size less the bytes not yet read.
    pub open spec fn room(self) -> int {
        if self.lag() >= self.size {
            0
        } else {
            self.size - self.lag()
        }
    }

    /// How many bytes a write of `len` takes: `len`, capped by the free room,
    /// so that bytes not yet read are never overwritten.
    pub open spec fn write_count(self, len: int) -> int {
        if len < self.room() {
            len
        } else {
            self.room()
        }
    }

    /// Where a write starts in the buffer.
    pub open spec fn write_start(self) -> int {
        (self.write_position as int) % (self.size as int)
    }

    /// The length of the first segment of a write of `n` bytes.
    pub open spec fn write_first_len(self, n: int) -> int {
        let to_end = self.size - self.write_start();
        if n < to_end {
            n
        } else {
            to_end
        }
    }

    /// The stored bytes after the write of `data`, of which the first
    /// `write_count` bytes are taken: the head at the write start, the rest
    /// (when it wraps) from the start of the buffer.
    pub open spec fn write_stored(self, stored: Seq<u8>, data: Seq<u8>) -> Seq<u8> {
        let n = self.write_count(data.len() as int);
        let first = self.write_first_len(n);
        if n == 0 {
            stored
        } else if first == n {
            overwrite(stored, self.write_start(), data.subrange(0, n))
        } else {
            overwrite(
                overwrite(stored, self.write_start(), data.subrange(0, first)),
                0,
                data.subrange(first, n),
            )
        }
    }

    /// The state after a write of `n` bytes.
    pub open spec fn after_write(self, n: int) -> SharedInfo {
        SharedInfo {
            write_position: (self.write_position + n) as usize,
            written: wrapping_add_usize(self.written, n as usize),
            ..self
        }
    }

    /// Maps an offset from the read position to a place in the buffer.
    pub fn mapped_read_position(&self, val: usize) -> (r: usize)
        requires
            self.size > 0,
            val + (self.read_position as int) % (self.size as int) <= usize::MAX,
        ensures
            r == (val + (self.read_position as int) % (self.size as int)) % (self.size as int),
            r == (self.read_position + val) % (self.size as int),
    {
        proof {
            vstd::arithmetic::div_mod::lemma_add_mod_noop_right(
                val as int,
                self.read_position as int,
                self.size as int,
            );
        }
        (val + (self.read_position % self.size)) % self.size
    }

    /// Maps an offset from the write position to a place in the buffer.
    pub fn mapped_write_position(&self, val: usize) -> (r: usize)
        requires
            self.size > 0,
            val + (self.write_position as int) % (self.size as int) <= usize::MAX,
        ensures
            r == (val + (self.write_position as int) % (self.size as int)) % (self.size as int),
            r == (self.write_position + val) % (self.size as int),
    {
        proof {
            vstd::arithmetic::div_mod::lemma_add_mod_noop_right(
                val as int,
                self.write_position as int,
                self.size as int,
            );
        }
        (val + (self.write_position % self.size)) % self.size
    }
}

/// The buffer holds the stream `stream` written so far: the buffer has `size`
/// bytes, and each of the last (up to) `size` stream positions sits at its
/// place `p % size`.
pub open spec fn holds_stream(info: SharedInfo, stored: Seq<u8>, stream: Seq<u8>) -> bool {
    &&& info.size > 0
    &&& stored.len() == info.size
    &&& stream.len() == info.write_position
    &&& forall|p: int|
        info.write_position - info.size <= p < info.write_position && 0 <= p ==> stored[p
            % (info.size as int)] == #[trigger] stream[p]
}

/// A fresh buffer of `size` bytes holds the empty stream, so that writes and
/// reads from the start go by [`lemma_write_keeps_stream`] and
/// [`lemma_read_gives_stream`].
pub proof fn lemma_initial_holds_stream(size: usize, stored: Seq<u8>)
    requires
        size > 0,
        stored.len() == size,
    ensures
        holds_stream(SharedInfo::initial(size), stored, Seq::<u8>::empty()),
{
}

/// `(q * m + r) % m` for `-m <= r < 2 * m`.
proof fn lemma_slot(q: int, m: int, r: int)
    requires
        0 < m,
        -m <= r < 2 * m,
    ensures
        (q * m + r) % m == if r < 0 {
            r + m
        } else if r < m {
            r
        } else {
            r - m
        },
{
    vstd::arithmetic::div_mod::lemma_mod_multiples_vanish(q, r, m);
    assert(q * m == m * q) by (nonlinear_arith);
    if r < 0 {
        vstd::arithmetic::div_mod::lemma_mod_add_multiples_vanish(r, m);
        lemma_mod_wrap(r + m, m);
    } else {
        lemma_mod_wrap(r, m);
    }
}

/// The place of the stream position `base + d`, for `base` at place `start`.
proof fn lemma_place(base: int, m: int, d: int)
    requires
        0 < m,
        0 <= base,
        -m <= base % m + d < 2 * m,
    ensures
        (base + d) % m == if base % m + d < 0 {
            base % m + d + m
        } else if base % m + d < m {
            base % m + d
        } else {
            base % m + d - m
        },
{
    vstd::arithmetic::div_mod::lemma_fundamental_div_mod(base, m);
    assert(base == (base / m) * m + base % m) by (nonlinear_arith)
        requires
            base == m * (base / m) + base % m,
    ;
    assert(base + d == (base / m) * m + (base % m + d));
    lemma_slot(base / m, m, base % m + d);
}

/// Writing to a buffer that holds a stream keeps holding it, with the bytes
/// the write took appended: the bytes not yet read are never overwritten, and
/// the older bytes that stay in the window keep their places.
pub proof fn lemma_write_keeps_stream(info: SharedInfo, stored: Seq<u8>, stream: Seq<u8>, data: Seq<u8>)
    requires
        holds_stream(info, stored, stream),
        info.write_position + info.write_count(data.len() as int) <= usize::MAX,
    ensures
        ({
            let n = info.write_count(data.len() as int);
            holds_stream(
                info.after_write(n),
                info.write_stored(stored, data),
                stream + data.subrange(0, n),
            )
        }),
{
    let n = info.write_count(data.len() as int);
    let m = info.size as int;
    let wp = info.write_position as int;
    let start = info.write_start();
    let first = info.write_first_len(n);
    let after = info.write_stored(stored, data);
    let new_stream = stream + data.subrange(0, n);
    vstd::arithmetic::div_mod::lemma_mod_bound(wp, m);
    assert(0 <= n <= m);
    if n > 0 {
        assert(after.len() == m);
        assert forall|p: int| wp + n - m <= p < wp + n && 0 <= p implies after[p % m]
            == #[trigger] new_stream[p] by {
            if p >= wp {
                let i = p - wp;
                lemma_place(wp, m, i);
                if i < first {
                    assert(p % m == start + i);
                } else {
                    assert(p % m == i - first);
                }
                assert(new_stream[p] == data[i]);
            } else {
                let k = wp - p;
                lemma_place(wp, m, -k);
                assert(new_stream[p] == stream[p]);
                if k <= start {
                    assert(p % m == start - k);
                } else {
                    assert(p % m == start - k + m);
                }
            }
        }
    } else {
        assert(new_stream =~= stream);
        assert forall|p: int| wp - m <= p < wp && 0 <= p implies after[p % m]
            == #[trigger] new_stream[p] by {}
    }
}

/// A read from a buffer that holds a stream returns the stream's bytes from
/// the read position on, in order, across the end of the buffer.
pub proof fn lemma_read_gives_stream(info: SharedInfo, stored: Seq<u8>, stream: Seq<u8>, len: int)
    requires
        holds_stream(info, stored, stream),
        info.read_copies(len),
    ensures
        info.read_bytes(stored, len) == stream.subrange(
            info.read_position as int,
            info.read_position + info.read_count(len),
        ),
{
    let m = info.size as int;
    let rp = info.read_position as int;
    let count = info.read_count(len);
    let start = info.read_start();
    let first = info.read_first_len(len);
    vstd::arithmetic::div_mod::lemma_mod_bound(rp, m);
    let got = info.read_bytes(stored, len);
    let want = stream.subrange(rp, rp + count);
    assert(got.len() == count);
    assert forall|j: int| 0 <= j < count implies got[j] == want[j] by {
        lemma_place(rp, m, j);
        if j < first {
            assert(got[j] == stored[start + j]);
            assert((rp + j) % m == start + j);
        } else {
            assert(got[j] == stored[j - first]);
            assert((rp + j) % m == j - first);
        }
        assert(want[j] == stream[rp + j]);
    }
    assert(got =~= want);
}

/// One call on a bounded buffer, as a history records it: a write of some
/// bytes, or a read that asks for some number of bytes.
pub enum BufferOp {
    /// A write of these bytes.
    Write(Seq<u8>),
    /// A read that asks for this many bytes.
    Read(usize),
}

/// Where a history of calls leaves a bounded buffer: its state, its stored
/// bytes, the bytes the writes took (in order), and the bytes the reads
/// returned (in order).
pub struct BufferRun {
    /// The shared state.
    pub info: SharedInfo,
    /// The stored bytes.
    pub stored: Seq<u8>,
    /// The bytes the writes took.
    pub stream: Seq<u8>,
    /// The bytes the reads returned.
    pub out: Seq<u8>,
}

/// What a read of `len` does, as [`BoundedStorage::read`] states it when its
/// backend reads succeed: it copies when the checks let it through, and
/// otherwise returns no bytes (an empty result or an error) and changes
/// nothing.
pub open spec fn read_step(info: SharedInfo, stored: Seq<u8>, len: usize) -> (SharedInfo, Seq<u8>) {
    if info.read_copies(len as int) {
        (info.after_read(len as int), info.read_bytes(stored, len as int))
    } else {
        (info, Seq::<u8>::empty())
    }
}

/// The buffer after the calls `ops`, made on a fresh buffer of `size` bytes
/// whose storage holds `stored`, as [`BoundedStorage::write`] and
/// [`BoundedStorage::read`] state them when the backend succeeds.
pub open spec fn run_buffer(size: usize, stored: Seq<u8>, ops: Seq<BufferOp>) -> BufferRun
    decreases ops.len(),
{
    if ops.len() == 0 {
        BufferRun {
            info: SharedInfo::initial(size),
            stored,
            stream: Seq::<u8>::empty(),
            out: Seq::<u8>::empty(),
        }
    } else {
        let prev = run_buffer(size, stored, ops.drop_last());
        match ops.last() {
            BufferOp::Write(data) => {
                let n = prev.info.write_count(data.len() as int);
                BufferRun {
                    info: prev.info.after_write(n),
                    stored: prev.info.write_stored(prev.stored, data),
                    stream: prev.stream + data.subrange(0, n),
                    out: prev.out,
                }
            },
            BufferOp::Read(len) => {
                let (info, bytes) = read_step(prev.info, prev.stored, len);
                BufferRun { info, stored: prev.stored, stream: prev.stream, out: prev.out + bytes }
            },
        }
    }
}

/// Whether every write of the history keeps the writer within `usize`, as
/// [`BoundedStorage::write`] requires.
pub open spec fn run_fits(size: usize, stored: Seq<u8>, ops: Seq<BufferOp>) -> bool
    decreases ops.len(),
{
    if ops.len() == 0 {
        true
    } else {
        &&& run_fits(size, stored, ops.drop_last())
        &&& match ops.last() {
            BufferOp::Write(data) => {
                let info = run_buffer(size, stored, ops.drop_last()).info;
                info.write_position + info.write_count(data.len() as int) <= usize::MAX
            },
            BufferOp::Read(_) => true,
        }
    }
}

/// A bounded buffer is first in, first out over any history of writes and
/// reads: the reads return, in order, exactly the bytes the writes took, up to
/// the reader's position; the reader is never behind by more than the buffer,
/// nor ahead of the writer; and the buffer keeps holding the stream.
pub proof fn lemma_buffer_fifo(size: usize, stored: Seq<u8>, ops: Seq<BufferOp>)
    requires
        size > 0,
        stored.len() == size,
        run_fits(size, stored, ops),
    ensures
        ({
            let r = run_buffer(size, stored, ops);
            &&& r.info.size == size
            &&& holds_stream(r.info, r.stored, r.stream)
            &&& r.info.read_position <= r.info.write_position
            &&& r.info.write_position - r.info.read_position <= size
            &&& r.out == r.stream.subrange(0, r.info.read_position as int)
        }),
    decreases ops.len(),
{
    if ops.len() == 0 {
        lemma_initial_holds_stream(size, stored);
        assert(Seq::<u8>::empty().subrange(0, 0) =~= Seq::<u8>::empty());
    } else {
        lemma_buffer_fifo(size, stored, ops.drop_last());
        let prev = run_buffer(size, stored, ops.drop_last());
        let r = run_buffer(size, stored, ops);
        match ops.last() {
            BufferOp::Write(data) => {
                lemma_write_keeps_stream(prev.info, prev.stored, prev.stream, data);
                assert(r.out =~= r.stream.subrange(0, r.info.read_position as int));
            },
            BufferOp::Read(len) => {
                if prev.info.read_copies(len as int) {
                    lemma_read_gives_stream(prev.info, prev.stored, prev.stream, len as int);
                    assert(r.out =~= r.stream.subrange(0, r.info.read_position as int));
                } else {
                    assert(r.out =~= prev.out);
                }
                assert(holds_stream(r.info, r.stored, r.stream));
            },
        }
    }
}

/// The position a seek asks for; seeking from the end has no target here.
pub open spec fn bounded_seek_target(position: usize, from: SeekFrom) -> int {
    match from {
        SeekFrom::Start(p) => p as int,
        SeekFrom::Current(off) => position + off,
        SeekFrom::End(_) => position as int,
    }
}

/// A fixed-size circular buffer over a storage backend, with the state its
/// reader and writer share.
#[derive(Debug)]
pub struct BoundedStorage<B> {
    info: SharedInfo,
    inner: B,
}

impl<B: StorageBackend> BoundedStorage<B> {
    /// The shared state.
    pub closed spec fn spec_info(&self) -> SharedInfo {
        self.info
    }

    /// The bytes held by the backend.
    pub closed spec fn stored(&self) -> Seq<u8> {
        self.inner.stored()
    }

    /// Whether the backend's writes and flushes always succeed.
    pub closed spec fn backend_writes_succeed(&self) -> bool {
        self.inner.writes_succeed()
    }

    /// Whether the backend's reads of stored bytes always succeed.
    pub closed spec fn backend_reads_succeed(&self) -> bool {
        self.inner.reads_succeed()
    }

    /// Wraps a backend of `buffer_size` bytes, as asked of the inner provider; a
    /// size that does not fit in `usize` is refused.
    pub fn new(inner: B, buffer_size: u64) -> (r: Result<Self, StorageError>)
        ensures
            match r {
                Ok(s) => {
                    &&& buffer_size <= usize::MAX
                    &&& s.spec_info() == SharedInfo::initial(buffer_size as usize)
                    &&& s.stored() == inner.stored()
                    &&& s.backend_writes_succeed() == inner.writes_succeed()
                    &&& s.backend_reads_succeed() == inner.reads_succeed()
                },
                Err(e) => buffer_size > usize::MAX && e == (StorageError::BufferSizeTooLarge {
                    requested: buffer_size,
                }),
            },
    {
        if buffer_size > usize::MAX as u64 {
            return Err(StorageError::BufferSizeTooLarge { requested: buffer_size });
        }
        let size = buffer_size as usize;
        Ok(BoundedStorage {
            info: SharedInfo { read: 0, written: 0, read_position: 0, write_position: 0, size },
            inner,
        })
    }

    /// The shared state.
    pub fn info(&self) -> (r: SharedInfo)
        ensures
            r == self.spec_info(),
    {
        self.info
    }

    /// Reads up to `len` bytes at the reader's position.
    ///
    /// A request larger than the buffer fails; when the writer is not ahead of
    /// the reader, the result is empty; a reader more than a buffer behind the
    /// writer (its data was overwritten) fails; an empty request returns
    /// nothing. Otherwise the bytes from the reader's position up to the
    /// writer's (at most `len`) come from the buffer, in one or two segments,
    /// and the reader moves past them. A reader that seeks back over bytes the
    /// buffer still holds reads them again.
    pub fn read(&mut self, len: usize) -> (r: Result<Vec<u8>, StorageError>)
        ensures
            ({
                let info = old(self).spec_info();
                &&& final(self).stored() == old(self).stored()
                &&& final(self).backend_writes_succeed() == old(self).backend_writes_succeed()
                &&& final(self).backend_reads_succeed() == old(self).backend_reads_succeed()
                &&& len > info.size ==> r == Err::<Vec<u8>, StorageError>(
                    StorageError::ReadTooLarge { read_len: len, size: info.size },
                ) && final(self).spec_info() == info
                &&& len <= info.size && info.read_position >= info.write_position ==> (r matches Ok(
                    v,
                ) && v@.len() == 0) && final(self).spec_info() == info
                &&& len <= info.size && info.read_position < info.write_position && info.lag()
                    > info.size ==> r == Err::<Vec<u8>, StorageError>(
                    StorageError::ReadTooFarBehind {
                        read_position: info.read_position,
                        write_position: info.write_position,
                        size: info.size,
                    },
                ) && final(self).spec_info() == info
                &&& len == 0 && info.read_position < info.write_position && info.lag() <= info.size
                    ==> (r matches Ok(v) && v@.len() == 0) && final(self).spec_info() == info
                &&& info.read_copies(len as int) ==> match r {
                    Ok(v) => {
                        &&& v@ == info.read_bytes(old(self).stored(), len as int)
                        &&& v@.len() == info.read_count(len as int)
                        &&& final(self).spec_info() == info.after_read(len as int)
                    },
                    Err(e) => final(self).spec_info() == info,
                }
                &&& info.read_copies(len as int) && old(self).backend_reads_succeed() && old(
                    self,
                ).stored().len() >= info.size ==> r is Ok
            }),
    {
        let info = self.info;
        if len > info.size {
            return Err(StorageError::ReadTooLarge { read_len: len, size: info.size });
        }
        if info.read_position >= info.write_position {
            return Ok(Vec::new());
        }
        let available = info.write_position - info.read_position;
        if available > info.size {
            return Err(
                StorageError::ReadTooFarBehind {
                    read_position: info.read_position,
                    write_position: info.write_position,
                    size: info.size,
                },
            );
        }
        if len == 0 {
            return Ok(Vec::new());
        }
        let count: usize = if len < available {
            len
        } else {
            available
        };
        let start = info.read_position % info.size;
        let to_end = info.size - start;
        let first_len: usize = if count < to_end {
            count
        } else {
            to_end
        };
        let ghost stored = self.inner.stored();
        let mut data = match self.inner.read_exact_at(start, first_len) {
            Ok(v) => v,
            Err(e) => return Err(e),
        };
        assert(data@ == stored.subrange(start as int, start + first_len));
        if first_len < count {
            let mut second = match self.inner.read_exact_at(0, count - first_len) {
                Ok(v) => v,
                Err(e) => return Err(e),
            };
            data.append(&mut second);
        }
        assert(data@ =~= info.read_bytes(stored, len as int));
        self.info.read_position = info.read_position + count;
        self.info.read = info.read.wrapping_add(count);
        Ok(data)
    }

    /// Writes as much of `buf` at the writer's position as there is room for:
    /// the buffer never overwrites bytes not yet read, so while it is full
    /// nothing is written (and an empty `buf` writes nothing). The bytes go
    /// from the write start towards the end of the buffer and on from its
    /// start; the writer moves past them and the backend is flushed. It
    /// succeeds whenever the backend's writes and flushes do.
    pub fn write(&mut self, buf: &[u8]) -> (r: Result<usize, StorageError>)
        requires
            old(self).spec_info().write_position + old(self).spec_info().write_count(
                buf@.len() as int,
            ) <= usize::MAX,
        ensures
            ({
                let info = old(self).spec_info();
                let n = info.write_count(buf@.len() as int);
                &&& final(self).backend_writes_succeed() == old(self).backend_writes_succeed()
                &&& final(self).backend_reads_succeed() == old(self).backend_reads_succeed()
                &&& old(self).backend_writes_succeed() ==> r is Ok
                &&& match r {
                    Ok(k) => {
                        &&& k == n
                        &&& final(self).spec_info() == info.after_write(n)
                        &&& final(self).stored() == info.write_stored(old(self).stored(), buf@)
                    },
                    Err(_) => n > 0 && (final(self).spec_info() == info || (final(self).spec_info()
                        == info.after_write(n) && final(self).stored() == info.write_stored(
                        old(self).stored(),
                        buf@,
                    ))),
                }
            }),
    {
        let info = self.info;
        let lag: usize = if info.write_position > info.read_position {
            info.write_position - info.read_position
        } else {
            0
        };
        let room: usize = if lag >= info.size {
            0
        } else {
            info.size - lag
        };
        let n: usize = if buf.len() < room {
            buf.len()
        } else {
            room
        };
        if n == 0 {
            return Ok(0);
        }
        let start = info.write_position % info.size;
        let to_end = info.size - start;
        if n <= to_end {
            let head = copy_slice(buf, 0, n);
            match self.inner.write_all_at(start, head.as_slice()) {
                Ok(()) => {},
                Err(e) => return Err(e),
            }
        } else {
            let head = copy_slice(buf, 0, to_end);
            let tail = copy_slice(buf, to_end, n);
            match self.inner.write_all_at(start, head.as_slice()) {
                Ok(()) => {},
                Err(e) => return Err(e),
            }
            match self.inner.write_all_at(0, tail.as_slice()) {
                Ok(()) => {},
                Err(e) => return Err(e),
            }
        }
        self.info.write_position = info.write_position + n;
        self.info.written = info.written.wrapping_add(n);
        match self.inner.flush() {
            Ok(()) => Ok(n),
            Err(e) => Err(e),
        }
    }

    /// Flushing a bounded writer does nothing: every write already flushes.
    pub fn flush(&mut self) -> (r: Result<(), StorageError>)
        ensures
            r is Ok,
            final(self).spec_info() == old(self).spec_info(),
            final(self).stored() == old(self).stored(),
            final(self).backend_writes_succeed() == old(self).backend_writes_succeed(),
            final(self).backend_reads_succeed() == old(self).backend_reads_succeed(),
    {
        Ok(())
    }

    /// Moves the reader. Seeking from the end is not supported, and a target
    /// before the start (or past the largest position) is refused.
    pub fn seek_reader(&mut self, from: SeekFrom) -> (r: Result<u64, StorageError>)
        ensures
            final(self).stored() == old(self).stored(),
            final(self).backend_writes_succeed() == old(self).backend_writes_succeed(),
            final(self).backend_reads_succeed() == old(self).backend_reads_succeed(),
            ({
                let info = old(self).spec_info();
                let t = bounded_seek_target(info.read_position, from);
                if from is End {
                    (r matches Err(e) && e is SeekFromEndUnsupported) && final(self).spec_info()
                        == info
                } else if 0 <= t <= usize::MAX {
                    r == Ok::<u64, StorageError>(t as u64) && final(self).spec_info() == SharedInfo {
                        read_position: t as usize,
                        ..info
                    }
                } else {
                    (r matches Err(e) && e is InvalidSeek) && final(self).spec_info() == info
                }
            }),
    {
        let t = match seek_target(self.info.read_position, from) {
            Ok(t) => t,
            Err(e) => return Err(e),
        };
        self.info.read_position = t;
        Ok(t as u64)
    }

    /// Moves the writer. Seeking from the end is not supported, and a target
    /// before the start (or past the largest position) is refused.
    pub fn seek_writer(&mut self, from: SeekFrom) -> (r: Result<u64, StorageError>)
        ensures
            final(self).stored() == old(self).stored(),
            final(self).backend_writes_succeed() == old(self).backend_writes_succeed(),
            final(self).backend_reads_succeed() == old(self).backend_reads_succeed(),
            ({
                let info = old(self).spec_info();
                let t = bounded_seek_target(info.write_position, from);
                if from is End {
                    (r matches Err(e) && e is SeekFromEndUnsupported) && final(self).spec_info()
                        == info
                } else if 0 <= t <= usize::MAX {
                    r == Ok::<u64, StorageError>(t as u64) && final(self).spec_info() == SharedInfo {
                        write_position: t as usize,
                        ..info
                    }
                } else {
                    (r matches Err(e) && e is InvalidSeek) && final(self).spec_info() == info
                }
            }),
    {
        let t = match seek_target(self.info.write_position, from) {
            Ok(t) => t,
            Err(e) => return Err(e),
        };
        self.info.write_position = t;
        Ok(t as u64)
    }
}

/// The position a seek from `position` lands on in a bounded buffer.
fn seek_target(position: usize, from: SeekFrom) -> (r: Result<usize, StorageError>)
    ensures
        ({
            let t = bounded_seek_target(position, from);
            if from is End {
                r matches Err(e) && e is SeekFromEndUnsupported
            } else if 0 <= t <= usize::MAX {
                r == Ok::<usize, StorageError>(t as usize)
            } else {
                r matches Err(e) && e is InvalidSeek
            }
        }),
{
    let target: i128 = match from {
        SeekFrom::Start(p) => p as i128,
        SeekFrom::Current(off) => position as i128 + off as i128,
        SeekFrom::End(_) => {
            return Err(StorageError::SeekFromEndUnsupported);
        },
    };
    if target < 0 || target > usize::MAX as i128 {
        return Err(StorageError::InvalidSeek);
    }
    Ok(target as usize)
}

/// Copies `buf[from..to]` into a new vector.
fn copy_slice(buf: &[u8], from: usize, to: usize) -> (r: Vec<u8>)
    requires
        from <= to <= buf@.len(),
    ensures
        r@ == buf@.subrange(from as int, to as int),
{
    let mut out: Vec<u8> = Vec::new();
    let mut i = from;
    while i < to
        invariant
            from <= i <= to,
            to <= buf@.len(),
            out@ == buf@.subrange(from as int, i as int),
        decreases to - i,
    {
        out.push(buf[i]);
        i = i + 1;
        assert(out@ =~= buf@.subrange(from as int, i as int));
    }
    out
}

} // verus!
