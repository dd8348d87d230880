//! State shared between the download task and the reader: which parts of the
//! stream are downloaded, the position a reader waits for, whether the
//! download failed, and the flags behind the wake-ups.
use vstd::prelude::*;

use core::ops::Range;
use rangemap::RangeSet;

verus! {

/// Sets of ranges from the `rangemap` crate.
#[verifier::external_type_specification]
#[verifier::external_body]
#[verifier::reject_recursive_types(T)]
pub struct ExRangeSet<T>(RangeSet<T>);

/// The stream positions that a `RangeSet<u64>` covers.
pub uninterp spec fn range_set_contents(s: RangeSet<u64>) -> Set<u64>;

/// Every position in `[start, end)` is in `c`.
pub open spec fn covers(c: Set<u64>, start: int, end: int) -> bool {
    forall|x: u64| start <= x < end ==> c.contains(x)
}

/// No position in `[start, end)` is in `c`.
pub open spec fn misses(c: Set<u64>, start: int, end: int) -> bool {
    forall|x: u64| start <= x < end ==> !c.contains(x)
}

/// The positions of `[start, end)`.
pub open spec fn range_positions(start: u64, end: u64) -> Set<u64> {
    Set::new(|x: u64| start <= x < end)
}

/// `[start, end)` is a maximal run of `c`: all of it is in `c`, and the
/// positions just before and just after it are not.
pub open spec fn is_run(c: Set<u64>, start: u64, end: u64) -> bool {
    &&& start < end
    &&& covers(c, start as int, end as int)
    &&& start > 0 ==> !c.contains((start - 1) as u64)
    &&& !c.contains(end)
}

/// `[start, end)` is the first gap of `c` inside `[outer_start, outer_end)`:
/// everything before it in the outer range is in `c`, none of it is, and it
/// stops at the end of the outer range or at a position of `c`.
pub open spec fn is_first_gap(c: Set<u64>, outer_start: u64, outer_end: u64, start: u64, end: u64) -> bool {
    &&& outer_start <= start < end <= outer_end
    &&& covers(c, outer_start as int, start as int)
    &&& misses(c, start as int, end as int)
    &&& end == outer_end || c.contains(end)
}

/// Calls `RangeSet::new`: the set starts empty.
#[verifier::external_body]
fn range_set_new() -> (r: RangeSet<u64>)
    ensures
        range_set_contents(r) == Set::<u64>::empty(),
{
    RangeSet::new()
}

/// Calls `RangeSet::insert`, which adds every position of a non-empty range
/// (touching and overlapping ranges are merged into one) and panics on an
/// empty one.
#[verifier::external_body]
fn range_set_insert(s: &mut RangeSet<u64>, range: Range<u64>)
    requires
        range.start < range.end,
    ensures
        range_set_contents(*final(s)) == range_set_contents(*old(s)).union(
            range_positions(range.start, range.end),
        ),
{
    s.insert(range)
}

/// Calls `RangeSet::get`, which returns the stored range that covers `value`.
/// Because the set merges touching ranges, that range is the maximal run of
/// covered positions around `value`.
#[verifier::external_body]
fn range_set_get(s: &RangeSet<u64>, value: u64) -> (r: Option<Range<u64>>)
    ensures
        match r {
            Some(range) => {
                &&& range.start <= value < range.end
                &&& is_run(range_set_contents(*s), range.start, range.end)
            },
            None => !range_set_contents(*s).contains(value),
        },
{
    s.get(&value).cloned()
}

/// Calls `RangeSet::gaps` and takes the first item: the lowest maximal range of
/// uncovered positions inside `outer`, or `None` when `outer` is fully covered
/// (an empty or reversed `outer` has no gap).
#[verifier::external_body]
fn range_set_first_gap(s: &RangeSet<u64>, outer: &Range<u64>) -> (r: Option<Range<u64>>)
    ensures
        match r {
            Some(gap) => is_first_gap(
                range_set_contents(*s),
                outer.start,
                outer.end,
                gap.start,
                gap.end,
            ),
            None => covers(range_set_contents(*s), outer.start as int, outer.end as int),
        },
{
    s.gaps(outer).next()
}

/// The parts of the stream that have been downloaded.
#[derive(Debug)]
pub struct Downloaded(RangeSet<u64>);

impl Downloaded {
    /// The downloaded positions.
    pub closed spec fn view(&self) -> Set<u64> {
        range_set_contents(self.0)
    }

    /// Nothing downloaded yet.
    pub fn new() -> (r: Self)
        ensures
            r.view() == Set::<u64>::empty(),
    {
        Downloaded(range_set_new())
    }

    /// Records `range` as downloaded. An empty (or reversed) range changes nothing.
    pub fn add(&mut self, range: Range<u64>)
        ensures
            range.end > range.start ==> final(self).view() == old(self).view().union(
                range_positions(range.start, range.end),
            ),
            range.end <= range.start ==> final(self).view() == old(self).view(),
    {
        if range.end > range.start {
            range_set_insert(&mut self.0, range);
        }
    }

    /// The maximal downloaded run around `position`, if it is downloaded.
    pub fn get(&self, position: u64) -> (r: Option<Range<u64>>)
        ensures
            match r {
                Some(range) => range.start <= position < range.end && is_run(
                    self.view(),
                    range.start,
                    range.end,
                ),
                None => !self.view().contains(position),
            },
    {
        range_set_get(&self.0, position)
    }

    /// Whether `position` is downloaded.
    pub fn contains(&self, position: u64) -> (r: bool)
        ensures
            r == self.view().contains(position),
    {
        range_set_get(&self.0, position).is_some()
    }

    /// The first part of `range` that has not been downloaded yet, if any.
    pub fn next_gap(&self, range: &Range<u64>) -> (r: Option<Range<u64>>)
        ensures
            match r {
                Some(gap) => is_first_gap(self.view(), range.start, range.end, gap.start, gap.end),
                None => covers(self.view(), range.start as int, range.end as int),
            },
    {
        range_set_first_gap(&self.0, range)
    }
}

/// Recording a range never loses a download, and every position of a
/// non-empty recorded range is then reported as downloaded, inside a run that
/// reaches at least to the range's end.
pub proof fn lemma_add_then_get(before: Set<u64>, after: Set<u64>, start: u64, end: u64, position: u64, run_start: u64, run_end: u64)
    requires
        start < end,
        after == before.union(range_positions(start, end)),
        start <= position < end,
        run_start <= position < run_end,
        is_run(after, run_start, run_end),
    ensures
        before.subset_of(after),
        after.contains(position),
        run_end >= end,
{
    if run_end < end {
        assert(after.contains(run_end));
    }
}

/// The position a reader waits for, stored the way the download task and the
/// reader exchange it: `-1` when none is requested.
#[derive(Clone, Copy, Debug, PartialEq, Eq)]
pub struct RequestedPosition(i64);

impl RequestedPosition {
    /// The stored value.
    pub closed spec fn raw(&self) -> i64 {
        self.0
    }

    /// The requested position the stored value stands for.
    pub open spec fn spec_get(&self) -> Option<u64> {
        if self.raw() == -1 {
            None
        } else {
            Some(self.raw() as u64)
        }
    }

    /// No position requested.
    pub fn new() -> (r: Self)
        ensures
            r.raw() == -1,
            r.spec_get() == None::<u64>,
    {
        RequestedPosition(-1)
    }

    /// Forgets the requested position.
    pub fn clear(&mut self)
        ensures
            final(self).raw() == -1,
            final(self).spec_get() == None::<u64>,
    {
        self.0 = -1;
    }

    /// The requested position, if any.
    pub fn get(&self) -> (r: Option<u64>)
        ensures
            r == self.spec_get(),
    {
        let val = self.0;
        if val == -1 {
            None
        } else {
            Some(val as u64)
        }
    }

    /// Requests `position`, stored as a signed value.
    pub fn set(&mut self, position: u64)
        ensures
            final(self).raw() == position as i64,
    {
        self.0 = position as i64;
    }
}

/// A requested position is read back as set, and a cleared request reads
/// back as none. The one position that cannot be requested is `u64::MAX`: it is
/// stored as `-1`, which reads back as no request.
pub proof fn lemma_requested_position_roundtrip(p: RequestedPosition, position: u64)
    requires
        p.raw() == position as i64,
    ensures
        position != u64::MAX ==> p.spec_get() == Some(position),
        position == u64::MAX ==> p.spec_get() == None::<u64>,
{
    assert(position != u64::MAX ==> (position as i64) != -1i64) by (bit_vector);
    assert(((position as i64) as u64) == position) by (bit_vector);
    assert(position == u64::MAX ==> (position as i64) == -1i64) by (bit_vector);
}

/// Whether the download failed.
#[derive(Clone, Copy, Debug, PartialEq, Eq)]
pub struct DownloadStatus(bool);

impl DownloadStatus {
    /// Whether the failure flag is set.
    pub closed spec fn spec_failed(&self) -> bool {
        self.0
    }

    /// Not failed.
    pub fn new() -> (r: Self)
        ensures
            !r.spec_failed(),
    {
        DownloadStatus(false)
    }

    /// Marks the download as failed.
    pub fn set_failed(&mut self)
        ensures
            final(self).spec_failed(),
    {
        self.0 = true;
    }

    /// Whether the download failed.
    pub fn is_failed(&self) -> (r: bool)
        ensures
            r == self.spec_failed(),
    {
        self.0
    }
}

/// The flags a waiting reader sleeps on: whether its position was reached and
/// whether the stream is done.
#[derive(Clone, Copy, Debug, Default, PartialEq, Eq)]
pub struct Waiter {
    /// The requested position was reached.
    pub position_reached: bool,
    /// The stream finished (or failed).
    pub stream_done: bool,
}

impl Waiter {
    /// Neither flag set.
    pub fn new() -> (r: Self)
        ensures
            !r.position_reached && !r.stream_done,
    {
        Waiter { position_reached: false, stream_done: false }
    }

    /// Marks the requested position as reached.
    pub fn notify_position_reached(&mut self)
        ensures
            final(self).position_reached,
            final(self).stream_done == old(self).stream_done,
    {
        self.position_reached = true;
    }

    /// Marks the stream as done.
    pub fn notify_stream_done(&mut self)
        ensures
            final(self).stream_done,
            final(self).position_reached == old(self).position_reached,
    {
        self.stream_done = true;
    }

    /// Whether a reader still has to wait: neither flag is set.
    pub fn must_wait(&self) -> (r: bool)
        ensures
            r == (!self.stream_done && !self.position_reached),
    {
        !self.stream_done && !self.position_reached
    }

    /// Ends a wait: a reached position is consumed unless the stream is done,
    /// which stays visible to every later wait.
    pub fn finish_wait(&mut self)
        ensures
            final(self).stream_done == old(self).stream_done,
            final(self).position_reached == (old(self).stream_done && old(self).position_reached),
    {
        if !self.stream_done {
            self.position_reached = false;
        }
    }
}

/// Whether a reader with these flags has to wait.
pub open spec fn waits(w: Waiter) -> bool {
    !w.stream_done && !w.position_reached
}

/// The flags after `n` ended waits (see [`Waiter::finish_wait`]).
pub open spec fn after_waits(w: Waiter, n: nat) -> Waiter
    decreases n,
{
    if n == 0 {
        w
    } else {
        let v = after_waits(w, (n - 1) as nat);
        Waiter { position_reached: v.stream_done && v.position_reached, stream_done: v.stream_done }
    }
}

/// Each notification that the requested position was reached releases one
/// wait: the waiting reader goes on, and (while the stream runs) the next wait
/// waits again. Once the stream is done, every later wait is released.
pub proof fn lemma_wake_ups(w: Waiter, n: nat)
    ensures
        !waits(Waiter { position_reached: true, ..w }),
        !w.stream_done ==> waits(after_waits(Waiter { position_reached: true, ..w }, 1)),
        after_waits(Waiter { stream_done: true, ..w }, n).stream_done,
        !waits(after_waits(Waiter { stream_done: true, ..w }, n)),
    decreases n,
{
    if n > 0 {
        lemma_wake_ups(w, (n - 1) as nat);
    }
    assert(after_waits(Waiter { position_reached: true, ..w }, 0) == Waiter {
        position_reached: true,
        ..w
    });
}

/// Whether the download task asked to be woken after the next read.
#[derive(Clone, Copy, Debug, Default, PartialEq, Eq)]
pub struct NotifyRead {
    /// The writer is waiting for room to be made by a read.
    pub write_requested: bool,
}

impl NotifyRead {
    /// Nothing requested.
    pub fn new() -> (r: Self)
        ensures
            !r.write_requested,
    {
        NotifyRead { write_requested: false }
    }

    /// The writer asks to be woken after the next read.
    pub fn request(&mut self)
        ensures
            final(self).write_requested,
    {
        self.write_requested = true;
    }

    /// After a read: wake the writer if it asked, and clear the request.
    pub fn notify_read(&mut self) -> (wake: bool)
        ensures
            wake == old(self).write_requested,
            !final(self).write_requested,
    {
        let wake = self.write_requested;
        self.write_requested = false;
        wake
    }

    /// Before a reader waits: wake the writer if it asked; the request stays.
    pub fn notify_waiting(&self) -> (wake: bool)
        ensures
            wake == self.write_requested,
    {
        self.write_requested
    }
}

} // verus!
