//! The download side of a stream: content lengths, the download state and the
//! decisions the download task makes between its reads from the source and
//! its writes to storage.
use vstd::prelude::*;

use core::ops::Range;
use core::time::Duration;

use crate::settings::{Settings, StreamPhase, StreamState};
use handle::{covers, is_first_gap, is_run, range_positions, Downloaded, RequestedPosition};

pub mod handle;
pub mod length_traits;

verus! {

/// A content length that can change while the content is processed: the
/// length reported by the server and, once known, the gathered length.
#[derive(Clone, Copy, PartialEq, Eq, Debug)]
pub struct DynamicLength {
    reported: u64,
    gathered: Option<u64>,
}

impl DynamicLength {
    /// The reported length.
    pub closed spec fn spec_reported(&self) -> u64 {
        self.reported
    }

    /// The gathered length, once known.
    pub closed spec fn spec_gathered(&self) -> Option<u64> {
        self.gathered
    }

    /// Creates a dynamic length.
    pub fn new(reported: u64, gathered: Option<u64>) -> (r: Self)
        ensures
            r.spec_reported() == reported,
            r.spec_gathered() == gathered,
    {
        DynamicLength { reported, gathered }
    }

    /// The gathered length when known, else the reported one.
    pub fn current(&self) -> (r: u64)
        ensures
            r == match self.spec_gathered() {
                Some(g) => g,
                None => self.spec_reported(),
            },
    {
        match self.gathered {
            Some(g) => g,
            None => self.reported,
        }
    }
}

/// The length of a stream: fixed, changing during processing, or unknown.
#[derive(Clone, Copy, PartialEq, Eq, Debug)]
pub enum ContentLength {
    /// A length that stays the same throughout processing.
    Static(u64),
    /// A length that may change while the content is processed.
    Dynamic(DynamicLength),
    /// No length is known.
    Unknown,
}

impl ContentLength {
    /// The value that `current_value` returns.
    pub open spec fn spec_current_value(self) -> Option<u64> {
        match self {
            ContentLength::Static(len) => Some(len),
            ContentLength::Dynamic(len) => Some(
                match len.spec_gathered() {
                    Some(g) => g,
                    None => len.spec_reported(),
                },
            ),
            ContentLength::Unknown => None,
        }
    }

    /// Creates a static content length.
    pub fn new_static(value: u64) -> (r: Self)
        ensures
            r == ContentLength::Static(value),
    {
        ContentLength::Static(value)
    }

    /// Creates a dynamic content length from the reported and gathered lengths.
    pub fn new_dynamic(reported: u64, gathered: Option<u64>) -> (r: Self)
        ensures
            r matches ContentLength::Dynamic(d) && d.spec_reported() == reported
                && d.spec_gathered() == gathered,
    {
        ContentLength::Dynamic(DynamicLength::new(reported, gathered))
    }

    /// Creates an unknown content length.
    pub fn new_unknown() -> (r: Self)
        ensures
            r == ContentLength::Unknown,
    {
        ContentLength::Unknown
    }

    /// The current value: exact for a static length, gathered (or reported
    /// until gathered) for a dynamic one, `None` when unknown.
    pub fn current_value(&self) -> (r: Option<u64>)
        ensures
            r == self.spec_current_value(),
    {
        match self {
            ContentLength::Static(len) => Some(*len),
            ContentLength::Dynamic(len) => Some(len.current()),
            ContentLength::Unknown => None,
        }
    }
}

/// How the stream ended.
#[derive(Clone, Copy, PartialEq, Eq, Debug)]
pub enum StreamOutcome {
    /// The stream completed on its own.
    Completed,
    /// The user cancelled the stream.
    CancelledByUser,
}

/// What the download task does after a seek request.
#[derive(Clone, Copy, PartialEq, Eq, Debug)]
pub enum SeekAction {
    /// Nothing to fetch: the position is already being downloaded or the
    /// stream cannot seek.
    Stay,
    /// Restart the source at `start`, up to `end` (exclusive) when given.
    Fetch { start: u64, end: Option<u64> },
}

/// The decision state of the download task: the content length and the
/// progress of the prefetch phase.
#[derive(Clone, Copy, Debug)]
pub struct SourceState {
    content_length: ContentLength,
    prefetch_bytes: u64,
    prefetch_complete: bool,
    prefetch_start_position: u64,
}

impl SourceState {
    /// The content length.
    pub closed spec fn spec_content_length(&self) -> ContentLength {
        self.content_length
    }

    /// How many bytes the prefetch phase downloads.
    pub closed spec fn spec_prefetch_bytes(&self) -> u64 {
        self.prefetch_bytes
    }

    /// Whether the prefetch phase is over.
    pub closed spec fn spec_prefetch_complete(&self) -> bool {
        self.prefetch_complete
    }

    /// Where the current prefetch phase started.
    pub closed spec fn spec_prefetch_start(&self) -> u64 {
        self.prefetch_start_position
    }

    /// The state at the start of a download: the prefetch phase is already
    /// over when no bytes are to be prefetched.
    pub fn new(content_length: ContentLength, settings: &Settings) -> (r: Self)
        ensures
            r.spec_content_length() == content_length,
            r.spec_prefetch_bytes() == settings.spec_prefetch_bytes(),
            r.spec_prefetch_complete() == (settings.spec_prefetch_bytes() == 0),
            r.spec_prefetch_start() == 0,
    {
        let prefetch_bytes = settings.get_prefetch_bytes();
        SourceState {
            content_length,
            prefetch_bytes,
            prefetch_complete: prefetch_bytes == 0,
            prefetch_start_position: 0,
        }
    }

    /// The content length.
    pub fn content_length(&self) -> (r: ContentLength)
        ensures
            r == self.spec_content_length(),
    {
        self.content_length
    }

    /// Whether the prefetch phase is over.
    pub fn prefetch_complete(&self) -> (r: bool)
        ensures
            r == self.spec_prefetch_complete(),
    {
        self.prefetch_complete
    }

    /// Where the current prefetch phase started.
    pub fn prefetch_start_position(&self) -> (r: u64)
        ensures
            r == self.spec_prefetch_start(),
    {
        self.prefetch_start_position
    }

    /// Whether a seek to `position` needs the source to restart: it does when
    /// the stream can seek and the position is either not downloaded, or
    /// downloaded in a run that the writer is not currently extending.
    pub fn should_seek(
        downloaded: &Downloaded,
        supports_seek: bool,
        position: u64,
        writer_position: u64,
    ) -> (r: bool)
        ensures
            r == seek_needed(downloaded.view(), supports_seek, position, writer_position),
    {
        if !supports_seek {
            return false;
        }
        match downloaded.get(position) {
            Some(range) => {
                proof {
                    if exists|s: u64, e: u64|
                        s <= position < e && is_run(downloaded.view(), s, e) && s <= writer_position
                            < e {
                        let (s, e) = choose|s: u64, e: u64|
                            s <= position < e && is_run(downloaded.view(), s, e) && s
                                <= writer_position < e;
                        lemma_same_run(downloaded.view(), range.start, range.end, s, e, position);
                    }
                }
                !(range.start <= writer_position && writer_position < range.end)
            },
            None => true,
        }
    }

    /// Handles a seek request to `position` while the writer is at
    /// `writer_position`. When the source must restart, a running prefetch ends
    /// early (its bytes are recorded as downloaded) and a finished one starts
    /// again at `position`; with a known length the source fetches the first
    /// missing range from `min(writer_position, position)`, starting no earlier
    /// than `position`; with no known length it restarts at `position`.
    pub fn handle_seek(
        &mut self,
        downloaded: &mut Downloaded,
        supports_seek: bool,
        position: u64,
        writer_position: u64,
    ) -> (r: SeekAction)
        ensures
            !seek_needed(old(downloaded).view(), supports_seek, position, writer_position) ==> {
                &&& r == SeekAction::Stay
                &&& *final(self) == *old(self)
                &&& final(downloaded).view() == old(downloaded).view()
            },
            seek_needed(old(downloaded).view(), supports_seek, position, writer_position) ==> {
                &&& final(self).spec_content_length() == old(self).spec_content_length()
                &&& final(self).spec_prefetch_bytes() == old(self).spec_prefetch_bytes()
                &&& final(self).spec_prefetch_complete() == !old(self).spec_prefetch_complete()
            },
            seek_needed(old(downloaded).view(), supports_seek, position, writer_position)
                && old(self).spec_prefetch_complete() ==> {
                &&& final(self).spec_prefetch_start() == position
                &&& final(downloaded).view() == old(downloaded).view()
            },
            seek_needed(old(downloaded).view(), supports_seek, position, writer_position)
                && !old(self).spec_prefetch_complete() ==> {
                &&& final(self).spec_prefetch_start() == old(self).spec_prefetch_start()
                &&& old(self).spec_prefetch_start() < writer_position ==> final(downloaded).view()
                    == old(downloaded).view().union(
                    range_positions(old(self).spec_prefetch_start(), writer_position),
                )
                &&& old(self).spec_prefetch_start() >= writer_position ==> final(downloaded).view()
                    == old(downloaded).view()
            },
            seek_needed(old(downloaded).view(), supports_seek, position, writer_position) ==> match old(
                self,
            ).spec_content_length().spec_current_value() {
                None => r == (SeekAction::Fetch { start: position, end: None }),
                Some(len) => fetch_for_gap(
                    final(downloaded).view(),
                    if writer_position < position {
                        writer_position
                    } else {
                        position
                    },
                    len,
                    position,
                    r,
                ),
            },
    {
        if !Self::should_seek(downloaded, supports_seek, position, writer_position) {
            return SeekAction::Stay;
        }
        let content_length = self.content_length.current_value();
        if self.prefetch_complete {
            self.prefetch_start_position = position;
            self.prefetch_complete = false;
        } else {
            downloaded.add(self.prefetch_start_position..writer_position);
            self.prefetch_complete = true;
        }
        match content_length {
            Some(len) => {
                let lo: u64 = if writer_position < position {
                    writer_position
                } else {
                    position
                };
                match downloaded.next_gap(&(lo..len)) {
                    Some(gap) => {
                        let start: u64 = if gap.start < position {
                            position
                        } else {
                            gap.start
                        };
                        let action = SeekAction::Fetch { start, end: Some(gap.end) };
                        assert(is_first_gap(downloaded.view(), lo, len, gap.start, gap.end));
                        assert(fetch_for_gap(downloaded.view(), lo, len, position, action));
                        action
                    },
                    None => {
                        assert(covers(downloaded.view(), lo as int, len as int));
                        SeekAction::Stay
                    },
                }
            },
            None => {
                assert(old(self).spec_content_length().spec_current_value() is None);
                SeekAction::Fetch { start: position, end: None }
            },
        }
    }

    /// Before a prefetch chunk is handled: a dynamic length is replaced by what
    /// the source now reports.
    pub fn refresh_content_length(&mut self, reported: ContentLength)
        ensures
            old(self).spec_content_length() is Dynamic ==> final(self).spec_content_length()
                == reported,
            !(old(self).spec_content_length() is Dynamic) ==> final(self).spec_content_length()
                == old(self).spec_content_length(),
            final(self).spec_prefetch_bytes() == old(self).spec_prefetch_bytes(),
            final(self).spec_prefetch_complete() == old(self).spec_prefetch_complete(),
            final(self).spec_prefetch_start() == old(self).spec_prefetch_start(),
    {
        if let ContentLength::Dynamic(_) = self.content_length {
            self.content_length = reported;
        }
    }

    /// The source ended during the prefetch phase (the stream is shorter than
    /// the prefetch length): the prefetch is over and what was written since it
    /// started, up to `position`, is downloaded.
    pub fn prefetch_ended(&mut self, downloaded: &mut Downloaded, position: u64)
        ensures
            final(self).spec_prefetch_complete(),
            final(self).spec_content_length() == old(self).spec_content_length(),
            final(self).spec_prefetch_bytes() == old(self).spec_prefetch_bytes(),
            final(self).spec_prefetch_start() == old(self).spec_prefetch_start(),
            old(self).spec_prefetch_start() < position ==> final(downloaded).view() == old(
                downloaded,
            ).view().union(range_positions(old(self).spec_prefetch_start(), position)),
            old(self).spec_prefetch_start() >= position ==> final(downloaded).view() == old(
                downloaded,
            ).view(),
    {
        self.prefetch_complete = true;
        downloaded.add(self.prefetch_start_position..position);
    }

    /// A prefetch chunk of `chunk_len` bytes was handed to storage, which took
    /// `written` of them, leaving the writer at `position`. The prefetch ends
    /// once the target is reached or when storage could not take the whole
    /// chunk; the bytes since the prefetch started are then downloaded.
    /// Returns whether the write was partial.
    pub fn prefetch_chunk_written(
        &mut self,
        downloaded: &mut Downloaded,
        position: u64,
        written: usize,
        chunk_len: usize,
    ) -> (partial: bool)
        requires
            old(self).spec_prefetch_start() + old(self).spec_prefetch_bytes() <= u64::MAX,
        ensures
            partial == (written < chunk_len),
            final(self).spec_content_length() == old(self).spec_content_length(),
            final(self).spec_prefetch_bytes() == old(self).spec_prefetch_bytes(),
            final(self).spec_prefetch_start() == old(self).spec_prefetch_start(),
            ({
                let start = old(self).spec_prefetch_start();
                let done = position >= start + old(self).spec_prefetch_bytes() || written
                    < chunk_len;
                &&& final(self).spec_prefetch_complete() == (done || old(self).spec_prefetch_complete())
                &&& done && start < position ==> final(downloaded).view() == old(downloaded).view().union(
                    range_positions(start, position),
                )
                &&& !(done && start < position) ==> final(downloaded).view() == old(downloaded).view()
            }),
    {
        let partial = written < chunk_len;
        if position >= self.prefetch_start_position + self.prefetch_bytes || partial {
            downloaded.add(self.prefetch_start_position..position);
            self.prefetch_complete = true;
        }
        partial
    }

    /// The source ran out of data: the range to fetch next (the first missing
    /// part of the stream, when the stream can seek and its length is known),
    /// or `None` when the download is complete.
    pub fn finish_or_find_next_gap(&self, downloaded: &Downloaded, supports_seek: bool) -> (r: Option<
        Range<u64>,
    >)
        ensures
            match r {
                Some(gap) => supports_seek && (self.spec_content_length().spec_current_value() matches Some(
                    len,
                ) && is_first_gap(downloaded.view(), 0, len, gap.start, gap.end)),
                None => !supports_seek || match self.spec_content_length().spec_current_value() {
                    Some(len) => covers(downloaded.view(), 0, len as int),
                    None => true,
                },
            },
    {
        if supports_seek {
            if let Some(len) = self.content_length.current_value() {
                return downloaded.next_gap(&(0..len));
            }
        }
        None
    }

    /// The progress reported after a prefetch chunk.
    pub fn prefetch_progress(&self, position: u64, elapsed: Duration, chunk_size: usize) -> (r: StreamState)
        ensures
            r.current_position == position,
            r.elapsed == elapsed,
            r.phase == (StreamPhase::Prefetching { target: self.spec_prefetch_bytes(), chunk_size }),
            r.current_chunk.start == 0 && r.current_chunk.end == position,
    {
        StreamState {
            current_position: position,
            current_chunk: 0..position,
            elapsed,
            phase: StreamPhase::Prefetching { target: self.prefetch_bytes, chunk_size },
        }
    }
}

/// Whether a seek to `position` needs the source to restart: the stream can
/// seek, and the position is not inside the downloaded run the writer is in.
pub open spec fn seek_needed(downloaded: Set<u64>, supports_seek: bool, position: u64, writer_position: u64) -> bool {
    supports_seek && !(downloaded.contains(position) && exists|s: u64, e: u64|
        s <= position < e && is_run(downloaded, s, e) && s <= writer_position < e)
}

/// `action` is what a seek to `position` fetches given the downloaded
/// positions `c`: nothing when `[lo, len)` is all downloaded, else the first
/// gap of `[lo, len)`, starting no earlier than `position`.
pub open spec fn fetch_for_gap(c: Set<u64>, lo: u64, len: u64, position: u64, action: SeekAction) -> bool {
    match action {
        SeekAction::Stay => covers(c, lo as int, len as int),
        SeekAction::Fetch { start, end } => exists|gs: u64, ge: u64|
            #![trigger is_first_gap(c, lo, len, gs, ge)]
            is_first_gap(c, lo, len, gs, ge) && start == (if gs < position {
                position
            } else {
                gs
            }) && end == Some(ge),
    }
}

/// Two maximal runs that share a position are the same run.
proof fn lemma_same_run(c: Set<u64>, s1: u64, e1: u64, s2: u64, e2: u64, p: u64)
    requires
        is_run(c, s1, e1),
        is_run(c, s2, e2),
        s1 <= p < e1,
        s2 <= p < e2,
    ensures
        s1 == s2,
        e1 == e2,
{
    if s1 < s2 {
        assert(c.contains((s2 - 1) as u64));
    }
    if s2 < s1 {
        assert(c.contains((s1 - 1) as u64));
    }
    if e1 < e2 {
        assert(c.contains(e1));
    }
    if e2 < e1 {
        assert(c.contains(e2));
    }
}

/// Bytes were written from `position` to `new_position`: records them as
/// downloaded and, when the writer reached the position a reader waits for,
/// clears the request. Returns whether the reader must be woken.
pub fn record_written(
    downloaded: &mut Downloaded,
    requested: &mut RequestedPosition,
    position: u64,
    new_position: u64,
) -> (wake: bool)
    ensures
        position < new_position ==> final(downloaded).view() == old(downloaded).view().union(
            range_positions(position, new_position),
        ),
        position >= new_position ==> final(downloaded).view() == old(downloaded).view(),
        wake == (old(requested).spec_get() matches Some(req) && new_position >= req),
        wake ==> final(requested).spec_get() == None::<u64>,
        !wake ==> *final(requested) == *old(requested),
{
    if new_position > position {
        downloaded.add(position..new_position);
    }
    match requested.get() {
        Some(req) => {
            if new_position >= req {
                requested.clear();
                true
            } else {
                false
            }
        },
        None => false,
    }
}

/// The downloaded run that ends a chunk written up to `new_position`.
pub fn downloading_chunk(downloaded: &Downloaded, new_position: u64) -> (r: Range<u64>)
    requires
        new_position > 0,
        downloaded.view().contains((new_position - 1) as u64),
    ensures
        r.start <= new_position - 1 < r.end,
        is_run(downloaded.view(), r.start, r.end),
{
    match downloaded.get(new_position - 1) {
        Some(range) => range,
        None => 0..0,
    }
}

/// The progress reported after a downloaded chunk.
pub fn downloading_progress(
    downloaded: &Downloaded,
    position: u64,
    new_position: u64,
    elapsed: Duration,
    chunk_size: usize,
) -> (r: StreamState)
    requires
        new_position > 0,
        downloaded.view().contains((new_position - 1) as u64),
    ensures
        r.current_position == position,
        r.elapsed == elapsed,
        r.phase == (StreamPhase::Downloading { chunk_size }),
        r.current_chunk.start <= new_position - 1 < r.current_chunk.end,
        is_run(downloaded.view(), r.current_chunk.start, r.current_chunk.end),
{
    StreamState {
        current_position: position,
        current_chunk: downloading_chunk(downloaded, new_position),
        elapsed,
        phase: StreamPhase::Downloading { chunk_size },
    }
}

/// The progress reported when the download completes: the run that ends at
/// the last byte before `position`, or an empty range when there is none.
pub fn complete_progress(downloaded: &Downloaded, position: u64, elapsed: Duration) -> (r: StreamState)
    ensures
        r.current_position == position,
        r.elapsed == elapsed,
        r.phase == StreamPhase::Complete,
        ({
            let last: u64 = if position > 1 {
                (position - 1) as u64
            } else {
                0
            };
            if downloaded.view().contains(last) {
                r.current_chunk.start <= last < r.current_chunk.end && is_run(
                    downloaded.view(),
                    r.current_chunk.start,
                    r.current_chunk.end,
                )
            } else {
                r.current_chunk.start == 0 && r.current_chunk.end == 0
            }
        }),
{
    let last: u64 = if position > 1 {
        position - 1
    } else {
        0
    };
    let chunk = match downloaded.get(last) {
        Some(range) => range,
        None => 0..0,
    };
    StreamState { current_position: position, current_chunk: chunk, elapsed, phase: StreamPhase::Complete }
}

/// The bytes to write next: those a partial prefetch write left over,
/// followed by the new chunk from the source; `None` when there are neither,
/// that is when the source ran out of data.
pub fn pending_bytes(remaining: Option<Vec<u8>>, bytes: Option<Vec<u8>>) -> (r: Option<Vec<u8>>)
    ensures
        match (remaining, bytes) {
            (None, None) => r is None,
            (Some(a), Some(b)) => r matches Some(v) && v@ == a@ + b@,
            (Some(a), None) => r matches Some(v) && v@ == a@,
            (None, Some(b)) => r matches Some(v) && v@ == b@,
        },
{
    match (remaining, bytes) {
        (Some(mut a), Some(mut b)) => {
            a.append(&mut b);
            Some(a)
        },
        (Some(a), None) => Some(a),
        (None, Some(b)) => Some(b),
        (None, None) => None,
    }
}

/// The size of the next batch handed to storage: the batch size, or what is
/// left when that is less.
pub fn batch_len(batch_write_size: usize, left: usize) -> (r: usize)
    ensures
        r == if batch_write_size < left { batch_write_size } else { left },
{
    if batch_write_size < left {
        batch_write_size
    } else {
        left
    }
}

/// What the download task does after handing part of a chunk to storage.
#[derive(Clone, Copy, Debug, PartialEq, Eq)]
pub enum WriteStep {
    /// The whole chunk is written.
    Done,
    /// Storage took nothing (a bounded buffer is full): wait until the reader
    /// reads, then write the rest.
    WaitForRead,
    /// Storage took some bytes: write the rest.
    Continue,
}

/// Of a chunk of `total` bytes, `written` were written before and storage
/// just took `new_written` more: the new count, and whether the chunk is
/// done, the task must wait for a read, or it goes on writing. Every byte of
/// the chunk is written, in order, before the next chunk.
pub fn write_step(total: usize, written: usize, new_written: usize) -> (r: (usize, WriteStep))
    requires
        written + new_written <= total,
    ensures
        r.0 == written + new_written,
        r.1 == (if r.0 == total {
            WriteStep::Done
        } else if new_written == 0 {
            WriteStep::WaitForRead
        } else {
            WriteStep::Continue
        }),
{
    let now = written + new_written;
    if now == total {
        (now, WriteStep::Done)
    } else if new_written == 0 {
        (now, WriteStep::WaitForRead)
    } else {
        (now, WriteStep::Continue)
    }
}

/// How the download ended, as it is handed to the stream's `on_finish`: the
/// download loop's outcome (`None` when it failed with an error) becomes
/// whether the result handed on is `Ok` and the outcome reported. A
/// cancellation is reported as an interrupted result; a failure as a
/// completed stream with an error.
pub fn finish_outcome(inner: Option<StreamOutcome>) -> (r: (bool, StreamOutcome))
    ensures
        r == match inner {
            Some(StreamOutcome::Completed) => (true, StreamOutcome::Completed),
            Some(StreamOutcome::CancelledByUser) => (false, StreamOutcome::CancelledByUser),
            None => (false, StreamOutcome::Completed),
        },
{
    match inner {
        Some(StreamOutcome::Completed) => (true, StreamOutcome::Completed),
        Some(StreamOutcome::CancelledByUser) => (false, StreamOutcome::CancelledByUser),
        None => (false, StreamOutcome::Completed),
    }
}

/// Whether a seek restarts the source, for a position inside the downloaded
/// run `[s, e)`: it does exactly when the writer is outside that run (before
/// its start, or at or past its end), and never when the stream cannot seek.
pub proof fn lemma_seek_restarts_unless_writer_in_run(
    downloaded: Set<u64>,
    position: u64,
    writer_position: u64,
    s: u64,
    e: u64,
)
    requires
        is_run(downloaded, s, e),
        s <= position < e,
    ensures
        seek_needed(downloaded, true, position, writer_position) == !(s <= writer_position < e),
        !seek_needed(downloaded, false, position, writer_position),
{
    assert(downloaded.contains(position));
    if exists|s2: u64, e2: u64|
        s2 <= position < e2 && is_run(downloaded, s2, e2) && s2 <= writer_position < e2 {
        let (s2, e2) = choose|s2: u64, e2: u64|
            s2 <= position < e2 && is_run(downloaded, s2, e2) && s2 <= writer_position < e2;
        lemma_same_run(downloaded, s, e, s2, e2, position);
    }
    if s <= writer_position < e {
        assert(s <= position < e && is_run(downloaded, s, e) && s <= writer_position < e);
    }
}

/// A seek to a position that is not downloaded restarts the source whenever
/// the stream can seek, wherever the writer is.
pub proof fn lemma_seek_to_missing_position_restarts(downloaded: Set<u64>, position: u64, writer_position: u64)
    requires
        !downloaded.contains(position),
    ensures
        seek_needed(downloaded, true, position, writer_position),
{
}

} // verus!
