use std::time::Duration;

use stream_download::settings::{Settings, StreamPhase};
use stream_download::source::handle::{DownloadStatus, Downloaded, NotifyRead, RequestedPosition, Waiter};
use stream_download::source::{
    batch_len, complete_progress, downloading_progress, pending_bytes, record_written, ContentLength,
    DynamicLength, SeekAction, SourceState,
};
use stream_download::source::{finish_outcome, write_step, StreamOutcome, WriteStep};

#[test]
fn downloaded_add_then_get_reports_the_run() {
    let mut downloaded = Downloaded::new();
    assert!(!downloaded.contains(0));
    downloaded.add(0..10);
    downloaded.add(10..20);
    assert_eq!(downloaded.get(5), Some(0..20));
    assert_eq!(downloaded.get(19), Some(0..20));
    assert_eq!(downloaded.get(20), None);
    // an empty range changes nothing
    downloaded.add(30..30);
    assert!(!downloaded.contains(30));
    downloaded.add(25..30);
    assert_eq!(downloaded.next_gap(&(0..40)), Some(20..25));
    assert_eq!(downloaded.next_gap(&(25..30)), None);
}

#[test]
fn requested_position_roundtrip() {
    let mut requested = RequestedPosition::new();
    assert_eq!(requested.get(), None);
    requested.set(42);
    assert_eq!(requested.get(), Some(42));
    requested.clear();
    assert_eq!(requested.get(), None);
    requested.set(0);
    assert_eq!(requested.get(), Some(0));
    // the largest position is stored as the "none" marker
    requested.set(u64::MAX);
    assert_eq!(requested.get(), None);
}

#[test]
fn download_status_flags() {
    let mut status = DownloadStatus::new();
    assert!(!status.is_failed());
    status.set_failed();
    assert!(status.is_failed());
}

#[test]
fn waiter_flags() {
    let mut waiter = Waiter::new();
    assert!(waiter.must_wait());
    waiter.notify_position_reached();
    assert!(!waiter.must_wait());
    waiter.finish_wait();
    assert!(waiter.must_wait());
    waiter.notify_stream_done();
    waiter.finish_wait();
    // a finished stream stays visible to every later wait
    assert!(!waiter.must_wait());
}

#[test]
fn notify_read_wakes_once() {
    let mut notify = NotifyRead::new();
    assert!(!notify.notify_read());
    notify.request();
    assert!(notify.notify_waiting());
    assert!(notify.notify_waiting());
    assert!(notify.notify_read());
    assert!(!notify.notify_read());
}

#[test]
fn source_content_length_values() {
    assert_eq!(ContentLength::new_static(3).current_value(), Some(3));
    assert_eq!(ContentLength::new_dynamic(3, None).current_value(), Some(3));
    assert_eq!(ContentLength::new_dynamic(3, Some(8)).current_value(), Some(8));
    assert_eq!(ContentLength::new_unknown().current_value(), None);
    assert_eq!(DynamicLength::new(3, Some(8)).current(), 8);
    let len = ContentLength::new_dynamic(3, Some(8));
    assert!(len == 8u64);
    assert!(len > 3u64);
    assert!(ContentLength::new_unknown() != 8u64);
}

#[test]
fn source_state_starts_in_prefetch() {
    let state = SourceState::new(ContentLength::new_static(100), &Settings::default());
    assert!(!state.prefetch_complete());
    assert_eq!(state.prefetch_start_position(), 0);
    let settings = Settings::default().prefetch_bytes(0);
    let state = SourceState::new(ContentLength::new_static(100), &settings);
    assert!(state.prefetch_complete());
}

#[test]
fn should_seek_decisions() {
    let mut downloaded = Downloaded::new();
    downloaded.add(0..10);
    downloaded.add(20..30);
    // a stream that cannot seek never restarts
    assert!(!SourceState::should_seek(&downloaded, false, 50, 5));
    // not downloaded: restart
    assert!(SourceState::should_seek(&downloaded, true, 15, 5));
    // downloaded in the run the writer is extending: no restart
    assert!(!SourceState::should_seek(&downloaded, true, 3, 5));
    // downloaded, but the writer is elsewhere: restart
    assert!(SourceState::should_seek(&downloaded, true, 25, 5));
}

#[test]
fn handle_seek_fetches_first_gap() {
    let settings = Settings::default().prefetch_bytes(0);
    let mut state = SourceState::new(ContentLength::new_static(100), &settings);
    let mut downloaded = Downloaded::new();
    downloaded.add(0..10);
    downloaded.add(20..30);
    let action = state.handle_seek(&mut downloaded, true, 15, 5);
    assert_eq!(action, SeekAction::Fetch { start: 15, end: Some(20) });
    // the prefetch restarts at the seek position
    assert!(!state.prefetch_complete());
    assert_eq!(state.prefetch_start_position(), 15);
}

#[test]
fn handle_seek_without_length_restarts_there() {
    let settings = Settings::default().prefetch_bytes(0);
    let mut state = SourceState::new(ContentLength::new_unknown(), &settings);
    let mut downloaded = Downloaded::new();
    let action = state.handle_seek(&mut downloaded, true, 77, 0);
    assert_eq!(action, SeekAction::Fetch { start: 77, end: None });
}

#[test]
fn handle_seek_stays_when_not_needed() {
    let mut state = SourceState::new(ContentLength::new_static(100), &Settings::default());
    let mut downloaded = Downloaded::new();
    downloaded.add(0..10);
    assert_eq!(state.handle_seek(&mut downloaded, true, 3, 5), SeekAction::Stay);
    assert_eq!(state.handle_seek(&mut downloaded, false, 50, 5), SeekAction::Stay);
}

#[test]
fn handle_seek_during_prefetch_records_prefetched_bytes() {
    let mut state = SourceState::new(ContentLength::new_static(100), &Settings::default());
    let mut downloaded = Downloaded::new();
    let action = state.handle_seek(&mut downloaded, true, 50, 12);
    assert!(state.prefetch_complete());
    assert_eq!(downloaded.get(0), Some(0..12));
    assert_eq!(action, SeekAction::Fetch { start: 50, end: Some(100) });
}

#[test]
fn prefetch_chunks() {
    let settings = Settings::default().prefetch_bytes(10);
    let mut state = SourceState::new(ContentLength::new_static(100), &settings);
    let mut downloaded = Downloaded::new();
    assert!(!state.prefetch_chunk_written(&mut downloaded, 4, 4, 4));
    assert!(!state.prefetch_complete());
    assert!(!downloaded.contains(0));
    assert!(!state.prefetch_chunk_written(&mut downloaded, 10, 6, 6));
    assert!(state.prefetch_complete());
    assert_eq!(downloaded.get(0), Some(0..10));
}

#[test]
fn partial_prefetch_write_ends_prefetch() {
    let settings = Settings::default().prefetch_bytes(10);
    let mut state = SourceState::new(ContentLength::new_static(100), &settings);
    let mut downloaded = Downloaded::new();
    assert!(state.prefetch_chunk_written(&mut downloaded, 3, 3, 5));
    assert!(state.prefetch_complete());
    assert_eq!(downloaded.get(1), Some(0..3));
}

#[test]
fn prefetch_ended_by_short_stream() {
    let mut state = SourceState::new(ContentLength::new_static(100), &Settings::default());
    let mut downloaded = Downloaded::new();
    state.prefetch_ended(&mut downloaded, 7);
    assert!(state.prefetch_complete());
    assert_eq!(downloaded.get(6), Some(0..7));
}

#[test]
fn refresh_replaces_only_dynamic_lengths() {
    let mut state = SourceState::new(ContentLength::new_dynamic(10, None), &Settings::default());
    state.refresh_content_length(ContentLength::new_dynamic(10, Some(12)));
    assert_eq!(state.content_length().current_value(), Some(12));
    let mut state = SourceState::new(ContentLength::new_static(10), &Settings::default());
    state.refresh_content_length(ContentLength::new_static(99));
    assert_eq!(state.content_length().current_value(), Some(10));
}

#[test]
fn finish_or_find_next_gap_decisions() {
    let state = SourceState::new(ContentLength::new_static(30), &Settings::default());
    let mut downloaded = Downloaded::new();
    downloaded.add(0..10);
    downloaded.add(20..30);
    assert_eq!(state.finish_or_find_next_gap(&downloaded, true), Some(10..20));
    assert_eq!(state.finish_or_find_next_gap(&downloaded, false), None);
    downloaded.add(10..20);
    assert_eq!(state.finish_or_find_next_gap(&downloaded, true), None);
    let state = SourceState::new(ContentLength::new_unknown(), &Settings::default());
    assert_eq!(state.finish_or_find_next_gap(&Downloaded::new(), true), None);
}

#[test]
fn record_written_wakes_reader_at_requested_position() {
    let mut downloaded = Downloaded::new();
    let mut requested = RequestedPosition::new();
    requested.set(8);
    assert!(!record_written(&mut downloaded, &mut requested, 0, 5));
    assert_eq!(requested.get(), Some(8));
    assert!(record_written(&mut downloaded, &mut requested, 5, 8));
    assert_eq!(requested.get(), None);
    assert_eq!(downloaded.get(0), Some(0..8));
    // nothing written: nothing recorded
    assert!(!record_written(&mut downloaded, &mut requested, 8, 8));
    assert!(!downloaded.contains(8));
}

#[test]
fn progress_reports() {
    let mut downloaded = Downloaded::new();
    downloaded.add(4..12);
    let state = downloading_progress(&downloaded, 12, 12, Duration::from_secs(1), 8);
    assert_eq!(state.current_position, 12);
    assert_eq!(state.current_chunk, 4..12);
    assert_eq!(state.phase, StreamPhase::Downloading { chunk_size: 8 });
    let state = complete_progress(&downloaded, 12, Duration::from_secs(2));
    assert_eq!(state.current_chunk, 4..12);
    assert_eq!(state.phase, StreamPhase::Complete);
    let settings = Settings::default().prefetch_bytes(64);
    let source = SourceState::new(ContentLength::new_static(100), &settings);
    let state = source.prefetch_progress(9, Duration::from_secs(3), 9);
    assert_eq!(state.current_chunk, 0..9);
    assert_eq!(state.phase, StreamPhase::Prefetching { target: 64, chunk_size: 9 });
}

#[test]
fn pending_bytes_combines_leftover_and_chunk() {
    assert_eq!(pending_bytes(Some(vec![1, 2]), Some(vec![3])), Some(vec![1, 2, 3]));
    assert_eq!(pending_bytes(Some(vec![1, 2]), None), Some(vec![1, 2]));
    assert_eq!(pending_bytes(None, Some(vec![3])), Some(vec![3]));
    assert_eq!(pending_bytes(None, None), None);
}

#[test]
fn batch_len_caps_at_batch_size() {
    assert_eq!(batch_len(4096, 10), 10);
    assert_eq!(batch_len(4096, 10000), 4096);
    assert_eq!(batch_len(0, 10), 0);
}

#[test]
fn write_steps_until_the_chunk_is_written() {
    assert_eq!(write_step(10, 0, 4), (4, WriteStep::Continue));
    // storage full: wait for the reader, then go on
    assert_eq!(write_step(10, 4, 0), (4, WriteStep::WaitForRead));
    assert_eq!(write_step(10, 4, 6), (10, WriteStep::Done));
    assert_eq!(write_step(0, 0, 0), (0, WriteStep::Done));
}

#[test]
fn finish_outcomes() {
    assert_eq!(finish_outcome(Some(StreamOutcome::Completed)), (true, StreamOutcome::Completed));
    assert_eq!(
        finish_outcome(Some(StreamOutcome::CancelledByUser)),
        (false, StreamOutcome::CancelledByUser)
    );
    assert_eq!(finish_outcome(None), (false, StreamOutcome::Completed));
}
