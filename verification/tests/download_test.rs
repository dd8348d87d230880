use stream_download::download::{ReadPlan, SeekPlan, StreamError, StreamLimits};
use stream_download::source::handle::Downloaded;
use stream_download::storage::SeekFrom;

#[test]
fn error_on_large_bounded_read_plan() {
    // a bounded storage of 1024 bytes cannot serve a read of 2048
    let limits = StreamLimits::new(Some(10_000), Some(1024));
    let downloaded = Downloaded::new();
    assert_eq!(
        limits.read_plan(false, &downloaded, 0, 2048),
        Err(StreamError::BufferTooLarge { buf_len: 2048, capacity: 1024 })
    );
    assert_eq!(
        limits.check_for_excessive_read(2048),
        Err(StreamError::BufferTooLarge { buf_len: 2048, capacity: 1024 })
    );
    assert_eq!(limits.check_for_excessive_read(1024), Ok(()));
}

#[test]
fn error_on_large_bounded_seek_plan() {
    // a bounded storage of 1024 bytes cannot reach position 2048 from the start
    let limits = StreamLimits::new(Some(10_000), Some(1024));
    let downloaded = Downloaded::new();
    assert_eq!(
        limits.seek_plan(false, &downloaded, SeekFrom::Start(2048), 0),
        Err(StreamError::SeekTooFar { position: 2048, max: 1024 })
    );
    assert_eq!(limits.check_for_excessive_seek(1024, 0), Ok(()));
    assert_eq!(limits.check_for_excessive_seek(u64::MAX, u64::MAX - 1), Ok(()));
}

#[test]
fn failed_download_fails_reads_and_seeks() {
    let limits = StreamLimits::new(None, None);
    let downloaded = Downloaded::new();
    assert_eq!(limits.read_plan(true, &downloaded, 0, 1), Err(StreamError::StreamFailed));
    assert_eq!(limits.seek_plan(true, &downloaded, SeekFrom::Start(0), 0), Err(StreamError::StreamFailed));
    assert_eq!(limits.check_for_failure(true), Err(StreamError::StreamFailed));
    assert_eq!(limits.check_for_failure(false), Ok(()));
}

#[test]
fn read_plan_reads_downloaded_data_now() {
    let limits = StreamLimits::new(Some(100), None);
    let mut downloaded = Downloaded::new();
    downloaded.add(0..50);
    assert_eq!(limits.read_plan(false, &downloaded, 10, 20), Ok(ReadPlan::ReadNow));
    assert_eq!(limits.read_plan(false, &downloaded, 40, 20), Ok(ReadPlan::WaitFor { requested: 60 }));
    assert_eq!(limits.read_plan(false, &downloaded, 60, 10), Ok(ReadPlan::WaitFor { requested: 70 }));
    // the request is capped at the content length
    assert_eq!(limits.read_plan(false, &downloaded, 90, 64), Ok(ReadPlan::WaitFor { requested: 100 }));
    downloaded.add(50..100);
    assert_eq!(limits.read_plan(false, &downloaded, 90, 64), Ok(ReadPlan::ReadNow));
}

#[test]
fn seek_from_end_needs_known_length() {
    let unknown = StreamLimits::new(None, None);
    assert_eq!(
        unknown.get_absolute_seek_position(SeekFrom::End(0), 0),
        Err(StreamError::SeekFromEndUnknownLength)
    );
    let known = StreamLimits::new(Some(100), None);
    assert_eq!(known.get_absolute_seek_position(SeekFrom::End(-10), 0), Ok(90));
    assert_eq!(known.get_absolute_seek_position(SeekFrom::Current(5), 20), Ok(25));
    assert_eq!(known.get_absolute_seek_position(SeekFrom::Start(7), 20), Ok(7));
}

#[test]
fn seek_plan_moves_now_or_waits() {
    let limits = StreamLimits::new(Some(100), None);
    let mut downloaded = Downloaded::new();
    downloaded.add(0..50);
    assert_eq!(limits.seek_plan(false, &downloaded, SeekFrom::Start(20), 0), Ok(SeekPlan::SeekNow { position: 20 }));
    assert_eq!(limits.seek_plan(false, &downloaded, SeekFrom::Start(70), 0), Ok(SeekPlan::WaitFor { position: 70 }));
    // past the end is capped at the end
    assert_eq!(limits.seek_plan(false, &downloaded, SeekFrom::Start(500), 0), Ok(SeekPlan::WaitFor { position: 100 }));
    assert_eq!(
        StreamLimits::new(None, None).seek_plan(false, &downloaded, SeekFrom::End(0), 0),
        Err(StreamError::SeekFromEndUnknownLength)
    );
}

#[test]
fn normalize_caps_at_content_length() {
    assert_eq!(StreamLimits::new(Some(100), None).normalize_requested_position(150), 100);
    assert_eq!(StreamLimits::new(Some(100), None).normalize_requested_position(50), 50);
    assert_eq!(StreamLimits::new(None, None).normalize_requested_position(150), 150);
    assert_eq!(StreamLimits::new(Some(3), None).content_length(), Some(3));
}
