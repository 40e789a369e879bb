use video_downloader::command::{
    first_attempt_args, list_formats_args, program, retry_attempt_args, template_for,
};
use video_downloader::error::DownloadError;
use video_downloader::format::MediaKind;

#[test]
fn program_is_the_downloader() {
    assert_eq!(program(), "yt-dlp");
}

#[test]
fn listing_arguments() {
    assert_eq!(
        list_formats_args("https://example.com/v"),
        vec!["https://example.com/v", "-F", "--no-check-certificates", "--force-ipv4"]
    );
}

#[test]
fn templates_name_the_file_in_the_directory() {
    assert_eq!(template_for("/tmp/out", MediaKind::Video), "/tmp/out/%(title)s_%(height)sp.%(ext)s");
    assert_eq!(template_for(".", MediaKind::Audio), "./%(title)s.%(ext)s");
}

#[test]
fn video_download_arguments() {
    assert_eq!(
        first_attempt_args(MediaKind::Video, "URL", "299+140", "T"),
        vec![
            "URL", "-f", "299+140", "-o", "T", "--progress", "--no-check-certificates",
            "--force-ipv4", "--geo-bypass", "--no-playlist", "--merge-output-format", "mp4",
            "--prefer-ffmpeg",
        ]
    );
}

#[test]
fn audio_download_arguments() {
    assert_eq!(
        first_attempt_args(MediaKind::Audio, "URL", "140", "T"),
        vec![
            "URL", "-f", "140", "-o", "T", "--progress", "--no-check-certificates",
            "--force-ipv4", "--geo-bypass", "--no-playlist", "-x", "--audio-format", "mp3",
            "--prefer-ffmpeg",
        ]
    );
}

#[test]
fn video_retry_arguments() {
    assert_eq!(
        retry_attempt_args(MediaKind::Video, "URL", "T"),
        vec![
            "URL", "-f", "bestvideo+bestaudio/best", "-o", "T", "--force-ipv4",
            "--no-check-certificates", "--merge-output-format", "mp4", "--prefer-ffmpeg",
        ]
    );
}

#[test]
fn audio_retry_arguments() {
    assert_eq!(
        retry_attempt_args(MediaKind::Audio, "URL", "T"),
        vec![
            "URL", "-f", "bestaudio", "-o", "T", "--force-ipv4", "--no-check-certificates", "-x",
            "--audio-format", "mp3", "--prefer-ffmpeg",
        ]
    );
}

#[test]
fn every_error_has_its_message() {
    assert_eq!(DownloadError::ToolNotFound.message(), "yt-dlp not found");
    assert_eq!(DownloadError::ListFormatsFailed.message(), "Failed to list formats");
    assert_eq!(
        DownloadError::NoCompatibleFormat(MediaKind::Video).message(),
        "No suitable MP4 formats found"
    );
    assert_eq!(
        DownloadError::NoCompatibleFormat(MediaKind::Audio).message(),
        "No audio formats found"
    );
    assert_eq!(
        DownloadError::DownloadFailed(MediaKind::Video).message(),
        "Download failed after retry. Please try a different format or URL."
    );
    assert_eq!(
        DownloadError::DownloadFailed(MediaKind::Audio).message(),
        "Audio download failed after retry. Please try a different format or URL."
    );
    assert_eq!(DownloadError::DirectoryCreateFailed.message(), "Failed to create output directory");
    assert_eq!(DownloadError::UserAborted.message(), "Cancelled by the user");
}
