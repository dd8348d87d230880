//! Settings of a stream and the state reported to progress callbacks.
use vstd::prelude::*;

use core::ops::Range;
use core::time::Duration;

verus! {

/// The duration of `secs` whole seconds, as `Duration::from_secs` makes it.
pub uninterp spec fn duration_of_secs(secs: u64) -> Duration;

/// Calls `Duration::from_secs`.
#[verifier::external_body]
fn duration_from_secs(secs: u64) -> (r: Duration)
    ensures
        r == duration_of_secs(secs),
{
    Duration::from_secs(secs)
}

/// Current phase of the download, reported to a progress callback.
#[derive(Clone, Copy, Debug, PartialEq, Eq)]
#[non_exhaustive]
pub enum StreamPhase {
    /// The stream is filling its prefetch buffer.
    Prefetching {
        /// Current prefetch target.
        target: u64,
        /// Size of the most recently downloaded chunk.
        chunk_size: usize,
    },
    /// The stream is downloading.
    Downloading {
        /// Size of the most recently downloaded chunk.
        chunk_size: usize,
    },
    /// The stream finished downloading.
    Complete,
}

/// State of the stream reported to a progress callback.
#[derive(Debug)]
#[non_exhaustive]
pub struct StreamState {
    /// Current position of the stream.
    pub current_position: u64,
    /// Time elapsed since the download started.
    pub elapsed: Duration,
    /// Current phase of the download.
    pub phase: StreamPhase,
    /// The downloaded run around the current position.
    pub current_chunk: Range<u64>,
}

/// Settings of a stream (the callbacks live with the download task).
#[derive(Debug)]
pub struct Settings {
    prefetch_bytes: u64,
    seek_buffer_size: usize,
    batch_write_size: usize,
    retry_timeout: Duration,
    cancel_on_drop: bool,
}

impl Settings {
    /// Bytes to download before reads are let through.
    pub closed spec fn spec_prefetch_bytes(&self) -> u64 {
        self.prefetch_bytes
    }

    /// Size of the buffer of pending seek requests.
    pub closed spec fn spec_seek_buffer_size(&self) -> usize {
        self.seek_buffer_size
    }

    /// Bytes written to storage before the task yields.
    pub closed spec fn spec_batch_write_size(&self) -> usize {
        self.batch_write_size
    }

    /// Time without data after which the stream reconnects.
    pub closed spec fn spec_retry_timeout(&self) -> Duration {
        self.retry_timeout
    }

    /// Whether dropping the reader cancels the download.
    pub closed spec fn spec_cancel_on_drop(&self) -> bool {
        self.cancel_on_drop
    }

    /// The defaults: 256 KiB of prefetch, a seek buffer of 128, batches of 4096
    /// bytes, a retry timeout of 5 seconds, and cancel on drop.
    pub fn default() -> (r: Self)
        ensures
            r.spec_prefetch_bytes() == 256 * 1024,
            r.spec_seek_buffer_size() == 128,
            r.spec_batch_write_size() == 4096,
            r.spec_retry_timeout() == duration_of_secs(5),
            r.spec_cancel_on_drop(),
    {
        Settings {
            prefetch_bytes: 256 * 1024,
            seek_buffer_size: 128,
            batch_write_size: 4096,
            retry_timeout: duration_from_secs(5),
            cancel_on_drop: true,
        }
    }

    /// Sets how many bytes to download before reads are let through.
    pub fn prefetch_bytes(self, prefetch_bytes: u64) -> (r: Self)
        ensures
            r.spec_prefetch_bytes() == prefetch_bytes,
            r.spec_seek_buffer_size() == self.spec_seek_buffer_size(),
            r.spec_batch_write_size() == self.spec_batch_write_size(),
            r.spec_retry_timeout() == self.spec_retry_timeout(),
            r.spec_cancel_on_drop() == self.spec_cancel_on_drop(),
    {
        Settings { prefetch_bytes, ..self }
    }

    /// Sets the size of the buffer of pending seek requests (non-zero).
    pub fn seek_buffer_size(self, seek_buffer_size: usize) -> (r: Self)
        requires
            seek_buffer_size > 0,
        ensures
            r.spec_prefetch_bytes() == self.spec_prefetch_bytes(),
            r.spec_seek_buffer_size() == seek_buffer_size,
            r.spec_batch_write_size() == self.spec_batch_write_size(),
            r.spec_retry_timeout() == self.spec_retry_timeout(),
            r.spec_cancel_on_drop() == self.spec_cancel_on_drop(),
    {
        Settings { seek_buffer_size, ..self }
    }

    /// Sets how many bytes are written before the task yields (non-zero).
    pub fn batch_write_size(self, batch_write_size: usize) -> (r: Self)
        requires
            batch_write_size > 0,
        ensures
            r.spec_prefetch_bytes() == self.spec_prefetch_bytes(),
            r.spec_seek_buffer_size() == self.spec_seek_buffer_size(),
            r.spec_batch_write_size() == batch_write_size,
            r.spec_retry_timeout() == self.spec_retry_timeout(),
            r.spec_cancel_on_drop() == self.spec_cancel_on_drop(),
    {
        Settings { batch_write_size, ..self }
    }

    /// Sets the time without data after which the stream reconnects.
    pub fn retry_timeout(self, retry_timeout: Duration) -> (r: Self)
        ensures
            r.spec_prefetch_bytes() == self.spec_prefetch_bytes(),
            r.spec_seek_buffer_size() == self.spec_seek_buffer_size(),
            r.spec_batch_write_size() == self.spec_batch_write_size(),
            r.spec_retry_timeout() == retry_timeout,
            r.spec_cancel_on_drop() == self.spec_cancel_on_drop(),
    {
        Settings { retry_timeout, ..self }
    }

    /// Sets whether dropping the reader cancels the download.
    pub fn cancel_on_drop(self, cancel_on_drop: bool) -> (r: Self)
        ensures
            r.spec_prefetch_bytes() == self.spec_prefetch_bytes(),
            r.spec_seek_buffer_size() == self.spec_seek_buffer_size(),
            r.spec_batch_write_size() == self.spec_batch_write_size(),
            r.spec_retry_timeout() == self.spec_retry_timeout(),
            r.spec_cancel_on_drop() == cancel_on_drop,
    {
        Settings { cancel_on_drop, ..self }
    }

    /// The configured prefetch bytes.
    pub fn get_prefetch_bytes(&self) -> (r: u64)
        ensures
            r == self.spec_prefetch_bytes(),
    {
        self.prefetch_bytes
    }

    /// The configured seek buffer size.
    pub fn get_seek_buffer_size(&self) -> (r: usize)
        ensures
            r == self.spec_seek_buffer_size(),
    {
        self.seek_buffer_size
    }

    /// The configured batch write size.
    pub fn get_write_batch_size(&self) -> (r: usize)
        ensures
            r == self.spec_batch_write_size(),
    {
        self.batch_write_size
    }

    /// The configured retry timeout.
    pub fn get_retry_timeout(&self) -> (r: Duration)
        ensures
            r == self.spec_retry_timeout(),
    {
        self.retry_timeout
    }

    /// Whether dropping the reader cancels the download.
    pub fn get_cancel_on_drop(&self) -> (r: bool)
        ensures
            r == self.spec_cancel_on_drop(),
    {
        self.cancel_on_drop
    }
}

} // verus!
