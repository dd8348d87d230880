use std::time::Duration;

use stream_download::async_read::AsyncReadStreamParams;
use stream_download::open_dal::{OpenDalStream, OpendalStream};
use stream_download::process::{check_command_error, Command, CommandBuilder, FfmpegConvertAudioCommand, YtDlpCommand};
use stream_download::source::StreamOutcome;
use stream_download::settings::Settings;
use stream_download::storage::ContentLength;

fn strings(items: &[&str]) -> Vec<String> {
    items.iter().map(|s| s.to_string()).collect()
}

#[test]
fn command_arguments_keep_their_order() {
    let cmd = Command::new("cat".to_string())
        .arg("a".to_string())
        .args(strings(&["b", "c"]))
        .insert_arg(1, "x".to_string());
    assert_eq!(cmd.get_program(), "cat");
    assert_eq!(cmd.get_args(), &strings(&["a", "x", "b", "c"]));
    assert_eq!(cmd.args_len(), 4);
    let cmd = cmd.program("tac".to_string());
    assert_eq!(cmd.get_program(), "tac");
}

#[test]
fn yt_dlp_command_arguments() {
    let cmd = YtDlpCommand::new("https://example.com/v".to_string()).into_command();
    assert_eq!(cmd.get_program(), "yt-dlp");
    assert_eq!(cmd.get_args(), &strings(&["https://example.com/v", "--quiet", "-o", "-"]));
    let cmd = YtDlpCommand::new("u".to_string())
        .extract_audio(true)
        .format("m4a".to_string())
        .yt_dlp_path("/bin/yt".to_string())
        .into_command();
    assert_eq!(cmd.get_program(), "/bin/yt");
    assert_eq!(cmd.get_args(), &strings(&["u", "--quiet", "-o", "-", "-x", "-f", "m4a"]));
}

#[test]
fn ffmpeg_command_arguments() {
    let cmd = FfmpegConvertAudioCommand::new("adts".to_string()).into_command();
    assert_eq!(cmd.get_program(), "ffmpeg");
    assert_eq!(
        cmd.get_args(),
        &strings(&["-i", "pipe:", "-map", "a", "-f", "adts", "-loglevel", "error", "-"])
    );
    let cmd = FfmpegConvertAudioCommand::new("mp3".to_string())
        .arg("-ac".to_string())
        .args(strings(&["-ar", "44100"]))
        .ffmpeg_path("/opt/ffmpeg".to_string())
        .into_command();
    assert_eq!(cmd.get_program(), "/opt/ffmpeg");
    // added arguments go before the final "-", which stays last
    assert_eq!(
        cmd.get_args(),
        &strings(&["-i", "pipe:", "-map", "a", "-f", "mp3", "-loglevel", "error", "-ac", "-ar", "44100", "-"])
    );
}

#[test]
fn command_pipeline_order() {
    let commands = CommandBuilder::new(Command::new("a".to_string()))
        .pipe(Command::new("b".to_string()))
        .pipe(Command::new("c".to_string()))
        .into_commands();
    let programs: Vec<&str> = commands.iter().map(|c| c.get_program().as_str()).collect();
    assert_eq!(programs, vec!["a", "b", "c"]);
}

#[test]
fn settings_defaults_and_builders() {
    let settings = Settings::default();
    assert_eq!(settings.get_prefetch_bytes(), 256 * 1024);
    assert_eq!(settings.get_seek_buffer_size(), 128);
    assert_eq!(settings.get_write_batch_size(), 4096);
    assert_eq!(settings.get_retry_timeout(), Duration::from_secs(5));
    assert!(settings.get_cancel_on_drop());
    let settings = Settings::default()
        .prefetch_bytes(7)
        .seek_buffer_size(3)
        .batch_write_size(9)
        .retry_timeout(Duration::from_millis(10))
        .cancel_on_drop(false);
    assert_eq!(settings.get_prefetch_bytes(), 7);
    assert_eq!(settings.get_seek_buffer_size(), 3);
    assert_eq!(settings.get_write_batch_size(), 9);
    assert_eq!(settings.get_retry_timeout(), Duration::from_millis(10));
    assert!(!settings.get_cancel_on_drop());
}

#[test]
fn opendal_stream_metadata() {
    let stream = OpendalStream::new(100, Some("audio/mpeg".to_string()), 4096);
    assert_eq!(stream.content_length(), ContentLength::new_static(100));
    assert_eq!(stream.content_type(), Some("audio/mpeg"));
    assert_eq!(stream.capacity(), 4096);
    // an object that reports no bytes has no known length
    let stream = OpendalStream::new(0, None, 16);
    assert_eq!(stream.content_length(), ContentLength::new_unknown());
    assert_eq!(stream.content_type(), None);
    let stream = OpenDalStream::new(Some(5), Some("video/mp4".to_string()), 8);
    assert_eq!(stream.content_length(), Some(5));
    assert_eq!(stream.content_type(), Some("video/mp4"));
    assert_eq!(stream.capacity(), 8);
}

#[test]
fn async_read_params() {
    let params = AsyncReadStreamParams::new(vec![1u8, 2, 3]).content_length(Some(3));
    let (stream, len) = params.into_parts();
    assert_eq!(stream, vec![1, 2, 3]);
    assert_eq!(len, Some(3));
    let (_, len) = AsyncReadStreamParams::new(0u8).into_parts();
    assert_eq!(len, None);
}

#[test]
fn stderr_is_checked_on_failures_only() {
    assert!(check_command_error(true, false, StreamOutcome::Completed));
    assert!(!check_command_error(true, true, StreamOutcome::Completed));
    assert!(check_command_error(false, false, StreamOutcome::Completed));
    assert!(!check_command_error(false, false, StreamOutcome::CancelledByUser));
}
