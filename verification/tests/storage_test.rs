use stream_download::storage::adaptive::{AdaptiveChoice, AdaptiveStorageProvider};
use stream_download::storage::bounded::{BoundedStorage, BoundedStorageProvider};
use stream_download::storage::memory::{MemoryStorage, MemoryStorageProvider};
use stream_download::storage::permanent::{
    check_extension, complete_sections_len, progress_path, downloaded_from_sections, progress_sections,
    Error as PermanentError, PermanentStorageProvider,
};
use stream_download::storage::{ContentLength, DynamicLength, SeekFrom, StorageBackend, StorageError};

#[test]
fn memory_write_then_read_returns_data() {
    let mut storage = MemoryStorage::new(0);
    assert_eq!(storage.write(0, &[1, 2, 3, 4]), 4);
    assert_eq!(storage.read(0, 4), vec![1, 2, 3, 4]);
    assert_eq!(storage.read(1, 2), vec![2, 3]);
}

#[test]
fn memory_read_is_capped_by_written_count_and_length() {
    let mut storage = MemoryStorage::new(8);
    assert_eq!(storage.len(), 8);
    // nothing written yet: a read returns nothing
    assert_eq!(storage.read(0, 4), Vec::<u8>::new());
    storage.write(0, &[9, 9]);
    // two bytes written: at most two come back
    assert_eq!(storage.read(0, 4), vec![9, 9]);
    // past the end of the buffer nothing comes back
    assert_eq!(storage.read(8, 4), Vec::<u8>::new());
}

#[test]
fn memory_write_past_end_fills_hole_with_zeros() {
    let mut storage = MemoryStorage::new(2);
    storage.write(4, &[7]);
    assert_eq!(storage.len(), 5);
    assert_eq!(storage.read(0, 5), vec![0]);
    storage.write(0, &[1, 1, 1, 1]);
    assert_eq!(storage.read(0, 5), vec![1, 1, 1, 1, 7]);
}

#[test]
fn memory_seek_targets() {
    let storage = MemoryStorage::new(10);
    assert_eq!(storage.seek(3, SeekFrom::Start(7)).unwrap(), 7);
    assert_eq!(storage.seek(3, SeekFrom::Current(2)).unwrap(), 5);
    assert_eq!(storage.seek(3, SeekFrom::Current(-3)).unwrap(), 0);
    assert_eq!(storage.seek(3, SeekFrom::End(-4)).unwrap(), 6);
    // a target before the start is refused
    assert!(matches!(storage.seek(2, SeekFrom::Current(-3)), Err(StorageError::InvalidSeek)));
    assert!(matches!(storage.seek(2, SeekFrom::End(-11)), Err(StorageError::InvalidSeek)));
}

#[test]
fn memory_provider_sizes_buffer_from_content_length() {
    let storage = MemoryStorageProvider
        .into_storage(ContentLength::new_static(16))
        .unwrap();
    assert_eq!(storage.len(), 16);
    let storage = MemoryStorageProvider
        .into_storage(ContentLength::new_unknown())
        .unwrap();
    assert_eq!(storage.len(), 0);
    let storage = MemoryStorageProvider
        .into_storage(ContentLength::new_dynamic(DynamicLength { reported: 10, gathered: Some(12) }))
        .unwrap();
    assert_eq!(storage.len(), 12);
}

#[test]
fn bounded_write_then_read_returns_data() {
    let mut storage = BoundedStorage::new(MemoryStorage::new(4), 4).unwrap();
    assert_eq!(storage.write(&[1, 2, 3]).unwrap(), 3);
    assert_eq!(storage.read(2).unwrap(), vec![1, 2]);
    assert_eq!(storage.read(2).unwrap(), vec![3]);
    // everything written was read
    assert_eq!(storage.read(2).unwrap(), Vec::<u8>::new());
}

#[test]
fn bounded_write_wraps_around_the_buffer() {
    let mut storage = BoundedStorage::new(MemoryStorage::new(4), 4).unwrap();
    storage.write(&[1, 2, 3]).unwrap();
    assert_eq!(storage.read(2).unwrap(), vec![1, 2]);
    // positions 3, 4, 5 land at 3, 0, 1 in the buffer
    assert_eq!(storage.write(&[4, 5, 6]).unwrap(), 3);
    let info = storage.info();
    assert_eq!(info.write_position, 6);
    assert_eq!(info.written, 6);
    assert_eq!(storage.read(4).unwrap(), vec![3, 4, 5, 6]);
    assert_eq!(storage.info().read_position, 6);
}

#[test]
fn bounded_read_of_the_whole_buffer_from_inside_it() {
    let mut storage = BoundedStorage::new(MemoryStorage::new(4), 4).unwrap();
    storage.write(&[1, 2, 3]).unwrap();
    assert_eq!(storage.read(2).unwrap(), vec![1, 2]);
    storage.write(&[4, 5, 6]).unwrap();
    assert_eq!(storage.read(3).unwrap(), vec![3, 4, 5]);
    assert_eq!(storage.read(3).unwrap(), vec![6]);
}

#[test]
fn bounded_write_never_overwrites_unread_bytes() {
    let mut storage = BoundedStorage::new(MemoryStorage::new(4), 4).unwrap();
    assert_eq!(storage.write(&[1, 2, 3]).unwrap(), 3);
    // one byte of room left
    assert_eq!(storage.write(&[4, 5]).unwrap(), 1);
    // full: nothing is written until the reader catches up
    assert_eq!(storage.write(&[6]).unwrap(), 0);
    assert_eq!(storage.read(2).unwrap(), vec![1, 2]);
    assert_eq!(storage.write(&[5, 6, 7]).unwrap(), 2);
    assert_eq!(storage.read(4).unwrap(), vec![3, 4, 5, 6]);
    // an empty write writes nothing
    assert_eq!(storage.write(&[]).unwrap(), 0);
    assert_eq!(storage.info().write_position, 6);
}

#[test]
fn bounded_seek_back_reads_held_bytes_again() {
    let mut storage = BoundedStorage::new(MemoryStorage::new(4), 4).unwrap();
    storage.write(&[1, 2, 3]).unwrap();
    assert_eq!(storage.read(3).unwrap(), vec![1, 2, 3]);
    assert_eq!(storage.seek_reader(SeekFrom::Start(0)).unwrap(), 0);
    assert_eq!(storage.read(3).unwrap(), vec![1, 2, 3]);
    // an empty read returns nothing and moves nothing
    storage.seek_reader(SeekFrom::Start(1)).unwrap();
    assert_eq!(storage.read(0).unwrap(), Vec::<u8>::new());
    assert_eq!(storage.info().read_position, 1);
}

#[test]
fn bounded_read_larger_than_buffer_fails() {
    let mut storage = BoundedStorage::new(MemoryStorage::new(4), 4).unwrap();
    storage.write(&[1]).unwrap();
    let res = storage.read(5);
    assert!(matches!(res, Err(StorageError::ReadTooLarge { read_len: 5, size: 4 })));
}

#[test]
fn bounded_reader_too_far_behind_fails() {
    let mut storage = BoundedStorage::new(MemoryStorage::new(4), 4).unwrap();
    storage.write(&[1, 2, 3, 4]).unwrap();
    assert_eq!(storage.read(4).unwrap(), vec![1, 2, 3, 4]);
    storage.write(&[5, 6]).unwrap();
    // the bytes at 0 and 1 were overwritten
    storage.seek_reader(SeekFrom::Start(0)).unwrap();
    let res = storage.read(1);
    assert!(matches!(
        res,
        Err(StorageError::ReadTooFarBehind { read_position: 0, write_position: 6, size: 4 })
    ));
}

#[test]
fn bounded_seek_from_end_is_unsupported() {
    let mut storage = BoundedStorage::new(MemoryStorage::new(4), 4).unwrap();
    assert!(matches!(storage.seek_reader(SeekFrom::End(0)), Err(StorageError::SeekFromEndUnsupported)));
    assert!(matches!(storage.seek_writer(SeekFrom::End(0)), Err(StorageError::SeekFromEndUnsupported)));
    assert_eq!(storage.seek_writer(SeekFrom::Start(3)).unwrap(), 3);
    assert_eq!(storage.seek_reader(SeekFrom::Current(2)).unwrap(), 2);
    assert!(matches!(storage.seek_reader(SeekFrom::Current(-3)), Err(StorageError::InvalidSeek)));
    assert_eq!(storage.info().write_position, 3);
    assert_eq!(storage.info().read_position, 2);
}

#[test]
fn bounded_mapped_positions() {
    let mut storage = BoundedStorage::new(MemoryStorage::new(4), 4).unwrap();
    storage.write(&[1, 2, 3]).unwrap();
    storage.read(2).unwrap();
    storage.write(&[4, 5]).unwrap();
    storage.seek_reader(SeekFrom::Start(3)).unwrap();
    let info = storage.info();
    assert_eq!(info.mapped_write_position(0), 1);
    assert_eq!(info.mapped_read_position(2), 1);
}

#[test]
fn bounded_provider_capacity_and_size() {
    let provider = BoundedStorageProvider::new(MemoryStorageProvider, 1024);
    assert_eq!(provider.max_capacity(), Some(1024));
    assert_eq!(provider.buffer_size_for(ContentLength::new_static(100)), 100);
    assert_eq!(provider.buffer_size_for(ContentLength::new_static(4096)), 1024);
    assert_eq!(provider.buffer_size_for(ContentLength::new_unknown()), 1024);
}

#[test]
fn adaptive_chooses_by_content_length() {
    let provider = AdaptiveStorageProvider::with_fixed_and_variable(1u8, 2u16, 100);
    match provider.into_choice(ContentLength::new_unknown()) {
        AdaptiveChoice::Bounded(b) => {
            assert_eq!(b.max_capacity(), Some(100));
            assert_eq!(b.into_inner(), 1u8);
        }
        _ => panic!("expected bounded storage"),
    }
    let provider = AdaptiveStorageProvider::with_fixed_and_variable(1u8, 2u16, 100);
    assert!(matches!(provider.into_choice(ContentLength::new_static(100)), AdaptiveChoice::Fixed(1)));
    let provider = AdaptiveStorageProvider::with_fixed_and_variable(1u8, 2u16, 100);
    assert!(matches!(provider.into_choice(ContentLength::new_static(101)), AdaptiveChoice::Variable(2)));
    let provider = AdaptiveStorageProvider::new(7u32, 100);
    assert!(matches!(provider.into_choice(ContentLength::new_static(5)), AdaptiveChoice::Fixed(7)));
}

#[test]
fn content_length_values() {
    assert_eq!(ContentLength::new_static(5).current_value(), Some(5));
    let reported_only = DynamicLength { reported: 5, gathered: None };
    assert_eq!(ContentLength::new_dynamic(reported_only).current_value(), Some(5));
    let gathered = DynamicLength { reported: 5, gathered: Some(9) };
    assert_eq!(ContentLength::new_dynamic(gathered).current_value(), Some(9));
    assert_eq!(ContentLength::new_unknown().current_value(), None);
}

#[test]
fn content_length_compares_with_counts() {
    let len = ContentLength::new_dynamic(DynamicLength { reported: 5, gathered: Some(9) });
    assert!(len == 9u64);
    assert!(len != 5u64);
    assert!(len > 5u64);
    assert!(len < 10u64);
    let unknown = ContentLength::new_unknown();
    assert!(unknown != 0u64);
    assert!(!(unknown < 10u64));
    assert!(!(unknown >= 10u64));
    assert_eq!(ContentLength::from(4u64), ContentLength::new_static(4));
    let as_option: Option<u64> = ContentLength::new_static(4).into();
    assert_eq!(as_option, Some(4));
}

#[test]
fn permanent_refuses_progress_extension() {
    assert!(matches!(check_extension(Some("progress")), Err(PermanentError::InvalidPath)));
    assert!(check_extension(Some("mp3")).is_ok());
    assert!(check_extension(None).is_ok());
    let res = PermanentStorageProvider::start("music.progress".to_string());
    assert!(matches!(res, Err(PermanentError::InvalidPath)));
    let provider = PermanentStorageProvider::restart("music.mp3".to_string()).unwrap();
    assert!(provider.force_restart());
    assert_eq!(provider.path(), "music.mp3");
    let provider = PermanentStorageProvider::start("dir/music.progress.mp3".to_string()).unwrap();
    assert!(!provider.force_restart());
}

#[test]
fn permanent_progress_record() {
    assert_eq!(complete_sections_len(40), 32);
    assert_eq!(complete_sections_len(16), 16);
    assert_eq!(complete_sections_len(15), 0);
    let mut bytes = Vec::new();
    bytes.extend_from_slice(&3u64.to_le_bytes());
    bytes.extend_from_slice(&10u64.to_le_bytes());
    bytes.extend_from_slice(&20u64.to_le_bytes());
    bytes.extend_from_slice(&25u64.to_le_bytes());
    // a section cut short is ignored
    bytes.extend_from_slice(&[1, 2, 3]);
    let sections = progress_sections(&bytes);
    assert_eq!(sections, vec![(3, 10), (20, 25)]);
    let downloaded = downloaded_from_sections(&sections);
    assert_eq!(downloaded.get(5), Some(3..10));
    assert_eq!(downloaded.get(22), Some(20..25));
    assert!(!downloaded.contains(10));
    assert_eq!(downloaded.next_gap(&(0..30)), Some(0..3));
}

#[test]
fn memory_backend_reads_and_writes_at_positions() {
    let mut storage = MemoryStorage::new(4);
    assert_eq!(storage.read_exact_at(0, 2).unwrap(), vec![0, 0]);
    assert!(storage.read_exact_at(0, 0).unwrap().is_empty());
    assert!(storage.write_all_at(1, &[7, 8]).is_ok());
    assert!(storage.flush().is_ok());
    assert_eq!(storage.read_exact_at(1, 2).unwrap(), vec![7, 8]);
    // past the end of the buffer
    assert!(matches!(storage.read_exact_at(3, 2), Err(StorageError::UnexpectedEof)));
}

#[test]
fn progress_file_sits_beside_the_data_file() {
    assert_eq!(progress_path("dir/song.mp3"), "dir/song.mp3.progress");
    assert_eq!(progress_path("dir/song.flac"), "dir/song.flac.progress");
    assert_eq!(progress_path("song"), "song.progress");
}


#[test]
fn bounded_buffer_is_first_in_first_out_over_a_history() {
    let size = 5;
    let mut storage = BoundedStorage::new(MemoryStorage::new(size), size as u64).unwrap();
    let mut taken: Vec<u8> = Vec::new();
    let mut returned: Vec<u8> = Vec::new();
    let mut next: u8 = 0;
    for round in 0..200usize {
        if round % 3 != 2 {
            let len = round % 4 + 1;
            let data: Vec<u8> = (0..len).map(|i| next.wrapping_add(i as u8)).collect();
            let n = storage.write(&data).unwrap();
            taken.extend_from_slice(&data[..n]);
            next = next.wrapping_add(n as u8);
        } else {
            let len = round % size + 1;
            returned.extend(storage.read(len).unwrap());
        }
        let info = storage.info();
        assert!(info.write_position - info.read_position <= size);
        assert_eq!(returned, taken[..info.read_position]);
    }
}
