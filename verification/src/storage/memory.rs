//! In-memory storage. The buffer starts at the content length, when one is
//! known, and grows when a write goes past its end.
use vstd::prelude::*;

use super::{overwrite, wrapping_add_usize, ContentLength, SeekFrom, StorageBackend, StorageError};

verus! {

/// The position a seek asks for: an absolute position, or an offset from the
/// current position or from the end of `len` bytes.
pub open spec fn seek_target(position: usize, len: usize, from: SeekFrom) -> int {
    match from {
        SeekFrom::Start(p) => p as int,
        SeekFrom::Current(off) => position + off,
        SeekFrom::End(off) => len + off,
    }
}

/// Creates a [`MemoryStorage`] sized after the content length.
#[derive(Clone, Copy, Debug)]
pub struct MemoryStorageProvider;

impl Default for MemoryStorageProvider {
    fn default() -> (r: Self)
        ensures
            r == MemoryStorageProvider,
    {
        MemoryStorageProvider
    }
}

impl MemoryStorageProvider {
    /// Creates the shared buffer for a stream: its initial size is the current
    /// content length, or zero when no length is known. A length that does not
    /// fit in memory addresses is refused.
    pub fn into_storage(self, content_length: ContentLength) -> (r: Result<MemoryStorage, StorageError>)
        ensures
            ({
                let size: u64 = match content_length.spec_current_value() {
                    Some(v) => v,
                    None => 0,
                };
                match r {
                    Ok(storage) => {
                        &&& size <= usize::MAX
                        &&& storage.contents() == Seq::new(size as nat, |i: int| 0u8)
                        &&& storage.written() == 0
                    },
                    Err(e) => size > usize::MAX && e == (StorageError::BufferSizeTooLarge {
                        requested: size,
                    }),
                }
            }),
    {
        let size: u64 = match content_length.current_value() {
            Some(v) => v,
            None => 0,
        };
        if size > usize::MAX as u64 {
            return Err(StorageError::BufferSizeTooLarge { requested: size });
        }
        Ok(MemoryStorage::new(size as usize))
    }
}

/// The buffer shared by the reader and the writer of an in-memory storage,
/// together with the count of bytes written to it.
#[derive(Debug)]
pub struct MemoryStorage {
    inner: Vec<u8>,
    written: usize,
}

impl MemoryStorage {
    /// The bytes in the buffer.
    pub closed spec fn contents(&self) -> Seq<u8> {
        self.inner@
    }

    /// The count of bytes written so far (wrapping like an atomic counter).
    pub closed spec fn written(&self) -> usize {
        self.written
    }

    /// How many bytes a read of `len` bytes at `position` returns: what is left
    /// after `position`, capped by the written count and by `len`.
    pub open spec fn read_len(&self, position: usize, len: usize) -> int {
        let left: int = if self.contents().len() > position {
            self.contents().len() - position
        } else {
            0
        };
        let available: int = if left < self.written() {
            left
        } else {
            self.written() as int
        };
        if available < len {
            available
        } else {
            len as int
        }
    }

    /// Creates a zero-filled buffer of `initial_size` bytes.
    pub fn new(initial_size: usize) -> (r: Self)
        ensures
            r.contents() == Seq::new(initial_size as nat, |i: int| 0u8),
            r.written() == 0,
    {
        let inner: Vec<u8> = vec![0u8; initial_size];
        assert(inner@ =~= Seq::new(initial_size as nat, |i: int| 0u8));
        MemoryStorage { inner, written: 0 }
    }

    /// The number of bytes in the buffer.
    pub fn len(&self) -> (r: usize)
        ensures
            r == self.contents().len(),
    {
        self.inner.len()
    }

    /// Reads at `position`: returns the next [`read_len`](Self::read_len) bytes.
    pub fn read(&self, position: usize, len: usize) -> (r: Vec<u8>)
        ensures
            r@.len() == self.read_len(position, len),
            self.read_len(position, len) > 0 ==> r@ == self.contents().subrange(
                position as int,
                position + self.read_len(position, len),
            ),
    {
        let left: usize = if self.inner.len() > position {
            self.inner.len() - position
        } else {
            0
        };
        let available: usize = if left < self.written {
            left
        } else {
            self.written
        };
        let read_len: usize = if available < len {
            available
        } else {
            len
        };
        let total = self.inner.len();
        let mut out: Vec<u8> = Vec::new();
        let mut i: usize = 0;
        while i < read_len
            invariant
                total == self.inner@.len(),
                i <= read_len,
                read_len == self.read_len(position, len),
                read_len > 0 ==> position + read_len <= self.inner@.len(),
                out@.len() == i,
                i > 0 ==> out@ == self.inner@.subrange(position as int, position + i),
            decreases read_len - i,
        {
            out.push(self.inner[position + i]);
            i = i + 1;
            assert(out@ =~= self.inner@.subrange(position as int, position + i));
        }
        out
    }

    /// Writes `buf` at `position`, growing the buffer with zeros when the write
    /// goes past its end, and adds its length to the written count.
    pub fn write(&mut self, position: usize, buf: &[u8]) -> (r: usize)
        requires
            position + buf@.len() <= usize::MAX,
        ensures
            r == buf@.len(),
            buf@.len() > 0 ==> final(self).contents() == overwrite(old(self).contents(), position as int, buf@),
            buf@.len() == 0 ==> final(self).contents() == if position > old(self).contents().len() {
                old(self).contents() + Seq::new((position - old(self).contents().len()) as nat, |i: int| 0u8)
            } else {
                old(self).contents()
            },
            final(self).written() == wrapping_add_usize(old(self).written(), buf@.len() as usize),
    {
        let end = position + buf.len();
        let ghost old_inner = self.inner@;
        if end > self.inner.len() {
            self.inner.resize(end, 0u8);
            assert forall|k: int| old_inner.len() <= k < end implies self.inner@[k] == 0u8 by {
                assert(cloned::<u8>(0u8, self.inner@[k]));
            }
            assert forall|k: int| 0 <= k < old_inner.len() implies self.inner@[k] == old_inner[k] by {
                assert(self.inner@.subrange(0, old_inner.len() as int)[k] == old_inner[k]);
            }
        }
        let ghost grown = self.inner@;
        let mut i: usize = 0;
        while i < buf.len()
            invariant
                i <= buf@.len(),
                end == position + buf@.len(),
                end <= usize::MAX,
                self.written == old(self).written,
                self.inner@.len() == grown.len(),
                grown.len() >= end,
                grown.len() == if end > old_inner.len() { end as int } else { old_inner.len() as int },
                forall|k: int| 0 <= k < old_inner.len() && k < grown.len() ==> grown[k] == old_inner[k],
                forall|k: int| old_inner.len() <= k < grown.len() ==> grown[k] == 0u8,
                forall|k: int|
                    0 <= k < self.inner@.len() ==> self.inner@[k] == if position <= k < position + i {
                        buf@[k - position]
                    } else {
                        grown[k]
                    },
            decreases buf@.len() - i,
        {
            self.inner.set(position + i, buf[i]);
            i = i + 1;
        }
        proof {
            if buf@.len() > 0 {
                assert(self.inner@ =~= overwrite(old_inner, position as int, buf@));
            } else if position > old_inner.len() {
                assert(self.inner@ =~= old_inner + Seq::new((position - old_inner.len()) as nat, |i: int| 0u8));
            } else {
                assert(self.inner@ =~= old_inner);
            }
        }
        self.written = self.written.wrapping_add(buf.len());
        buf.len()
    }

    /// The position a seek from `position` lands on. A target before the
    /// start, or past the largest position, is refused.
    pub fn seek(&self, position: usize, from: SeekFrom) -> (r: Result<usize, StorageError>)
        ensures
            ({
                let t = seek_target(position, self.contents().len() as usize, from);
                if 0 <= t <= usize::MAX {
                    r == Ok::<usize, StorageError>(t as usize)
                } else {
                    r matches Err(e) && e is InvalidSeek
                }
            }),
    {
        let len = self.inner.len();
        let target: i128 = match from {
            SeekFrom::Start(p) => p as i128,
            SeekFrom::Current(off) => position as i128 + off as i128,
            SeekFrom::End(off) => len as i128 + off as i128,
        };
        if target < 0 || target > usize::MAX as i128 {
            return Err(StorageError::InvalidSeek);
        }
        Ok(target as usize)
    }
}

impl StorageBackend for MemoryStorage {
    open spec fn stored(&self) -> Seq<u8> {
        self.contents()
    }

    open spec fn writes_succeed(&self) -> bool {
        true
    }

    open spec fn reads_succeed(&self) -> bool {
        true
    }

    /// Succeeds exactly when nothing is asked or the bytes asked lie in the
    /// buffer; otherwise the read runs out of data.
    fn read_exact_at(&mut self, position: usize, len: usize) -> (r: Result<Vec<u8>, StorageError>)
        ensures
            *final(self) == *old(self),
            r is Ok <==> (len == 0 || position + len <= old(self).contents().len()),
            r is Err ==> (r matches Err(e) && e is UnexpectedEof),
    {
        let mut out: Vec<u8> = Vec::new();
        if len == 0 {
            return Ok(out);
        }
        if position > self.inner.len() || len > self.inner.len() - position {
            return Err(StorageError::UnexpectedEof);
        }
        let mut i: usize = 0;
        while i < len
            invariant
                i <= len,
                position + len <= self.inner@.len(),
                self.inner@.len() <= usize::MAX,
                out@ == self.inner@.subrange(position as int, position + i),
            decreases len - i,
        {
            out.push(self.inner[position + i]);
            i = i + 1;
            assert(out@ =~= self.inner@.subrange(position as int, position + i));
        }
        Ok(out)
    }

    /// Always succeeds, and adds the length of `data` to the written count.
    fn write_all_at(&mut self, position: usize, data: &[u8]) -> (r: Result<(), StorageError>)
        ensures
            r is Ok,
            final(self).contents() == overwrite(old(self).contents(), position as int, data@),
            final(self).written() == wrapping_add_usize(old(self).written(), data@.len() as usize),
    {
        if data.len() > 0 {
            self.write(position, data);
        } else {
            assert(self.inner@ =~= overwrite(self.inner@, position as int, data@));
            assert(vstd::wrapping::usize_specs::wrapping_add(self.written, 0usize) == self.written);
        }
        Ok(())
    }

    /// Nothing is buffered: always succeeds and changes nothing.
    fn flush(&mut self) -> (r: Result<(), StorageError>)
        ensures
            r is Ok,
            *final(self) == *old(self),
    {
        Ok(())
    }
}

/// A read at the position of a write returns the bytes written: once `data`
/// is written at `position` of `before`, giving `after`, a read of as many
/// bytes at `position` returns `data` (while the written count does not wrap).
pub proof fn lemma_read_after_write(before: MemoryStorage, after: MemoryStorage, position: usize, data: Seq<u8>)
    requires
        data.len() > 0,
        position + data.len() <= usize::MAX,
        before.written() + data.len() <= usize::MAX,
        after.contents() == overwrite(before.contents(), position as int, data),
        after.written() == wrapping_add_usize(before.written(), data.len() as usize),
    ensures
        after.read_len(position, data.len() as usize) == data.len(),
        after.contents().subrange(position as int, position + data.len()) == data,
{
    assert(after.written() == before.written() + data.len()) by {
        assert(vstd::wrapping::usize_specs::wrapping_add(before.written(), data.len() as usize)
            == before.written() + data.len());
    }
    assert(after.contents().subrange(position as int, position + data.len()) =~= data);
}

/// A seek lands where it is asked, whatever the buffer's length: from the
/// start on the position itself (also past the end of the buffer), from the
/// current position the signed offset away, from the end the offset away
/// from the length. Buffers of different lengths agree on every seek from
/// the start or from the current position.
pub proof fn lemma_seek_lands(len: usize, other_len: usize, position: usize, p: u64, off: i64)
    ensures
        seek_target(position, len, SeekFrom::Start(p)) == p,
        seek_target(position, len, SeekFrom::Current(off)) == position + off,
        seek_target(position, len, SeekFrom::End(off)) == len + off,
        seek_target(position, len, SeekFrom::Start(p)) == seek_target(
            position,
            other_len,
            SeekFrom::Start(p),
        ),
        seek_target(position, len, SeekFrom::Current(off)) == seek_target(
            position,
            other_len,
            SeekFrom::Current(off),
        ),
{
}

/// Writing at a position past the end of the buffer (where a seek from the
/// start may have put the writer) puts the bytes at that position: the buffer
/// grows to hold them, and they read back there.
pub proof fn lemma_write_lands_at_position(before: Seq<u8>, position: int, data: Seq<u8>)
    requires
        0 <= position,
        data.len() > 0,
    ensures
        overwrite(before, position, data).len() >= position + data.len(),
        overwrite(before, position, data).subrange(position, position + data.len()) == data,
{
    assert(overwrite(before, position, data).subrange(position, position + data.len()) =~= data);
}

} // verus!
