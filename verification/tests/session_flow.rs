use video_downloader::error::DownloadError;
use video_downloader::format::MediaKind;
use video_downloader::session::{Event, KnownDirectory, Request, Session, Stage};

const LISTING: &str = "[info] Available formats for abc:\nID EXT RESOLUTION\n140 m4a audio only 128k\n299 mp4 1920x1080 2500k\n";

fn text(s: &str) -> String {
    s.to_string()
}

fn texts(items: &[&str]) -> Vec<String> {
    items.iter().map(|s| s.to_string()).collect()
}

fn step(session: &mut Session, event: Event) -> Request {
    assert!(session.accepts(&event), "{:?} at {:?}", event, session.stage);
    session.step(event)
}

/// A session that has read `listing` and asks for the kind of media.
fn at_kind(listing: &str) -> Session {
    let (mut session, _) = Session::new(Some(text("URL")), Some(text("/out")), false);
    step(&mut session, Event::ToolFound(true));
    step(&mut session, Event::DirectoryCreated(true));
    step(&mut session, Event::Listed(Some(text(listing))));
    assert_eq!(session.stage, Stage::Kind);
    session
}

fn video_args(spec: &str) -> Vec<String> {
    texts(&[
        "URL", "-f", spec, "-o", "/out/%(title)s_%(height)sp.%(ext)s", "--progress",
        "--no-check-certificates", "--force-ipv4", "--geo-bypass", "--no-playlist",
        "--merge-output-format", "mp4", "--prefer-ffmpeg",
    ])
}

fn audio_args(spec: &str) -> Vec<String> {
    texts(&[
        "URL", "-f", spec, "-o", "/out/%(title)s.%(ext)s", "--progress",
        "--no-check-certificates", "--force-ipv4", "--geo-bypass", "--no-playlist", "-x",
        "--audio-format", "mp3", "--prefer-ffmpeg",
    ])
}

#[test]
fn session_looks_for_the_downloader_first() {
    let (session, request) = Session::new(None, None, true);
    assert_eq!(request, Request::FindTool { program: text("yt-dlp") });
    assert_eq!(session.stage, Stage::Tool);
    assert!(session.verbose);
    assert_eq!(session.url, None);
    assert_eq!(session.output_dir, None);
}

#[test]
fn missing_downloader_ends_the_session() {
    let (mut session, _) = Session::new(None, None, false);
    let request = step(&mut session, Event::ToolFound(false));
    assert_eq!(request, Request::Finish(Err(DownloadError::ToolNotFound)));
    assert_eq!(session.stage, Stage::Finished);
}

#[test]
fn one_audio_and_one_video_line_from_listing_to_download() {
    let (mut session, request) = Session::new(Some(text("URL")), Some(text("/out")), false);
    assert_eq!(request, Request::FindTool { program: text("yt-dlp") });
    let request = step(&mut session, Event::ToolFound(true));
    assert_eq!(request, Request::CreateDirectory { path: text("/out") });
    let request = step(&mut session, Event::DirectoryCreated(true));
    assert_eq!(
        request,
        Request::ListFormats {
            program: text("yt-dlp"),
            args: texts(&["URL", "-F", "--no-check-certificates", "--force-ipv4"]),
        }
    );
    let request = step(&mut session, Event::Listed(Some(text(LISTING))));
    assert_eq!(
        request,
        Request::Choose {
            prompt: text("Select download type"),
            items: texts(&["Video", "Audio"]),
            preselected: 0,
        }
    );
    assert_eq!(session.formats.len(), 2);
    let request = step(&mut session, Event::Chosen(0));
    assert_eq!(
        request,
        Request::Choose {
            prompt: text("Select video quality"),
            items: texts(&["1080p MP4"]),
            preselected: 0,
        }
    );
    assert_eq!(session.kind, MediaKind::Video);
    assert_eq!(session.qualities.len(), 1);
    assert_eq!(session.partner.as_ref().unwrap().id, "140");
    let request = step(&mut session, Event::Chosen(0));
    assert_eq!(request, Request::Download { program: text("yt-dlp"), args: video_args("299+140") });
    assert_eq!(session.stage, Stage::Primary);
    let request = step(&mut session, Event::Exited(true));
    assert_eq!(request, Request::Finish(Ok(())));
    assert_eq!(session.stage, Stage::Finished);
}

#[test]
fn failed_download_is_retried_once_and_never_twice() {
    let mut session = at_kind(LISTING);
    step(&mut session, Event::Chosen(0));
    let first = step(&mut session, Event::Chosen(0));
    assert!(matches!(first, Request::Download { .. }));
    let second = step(&mut session, Event::Exited(false));
    assert_eq!(
        second,
        Request::Download {
            program: text("yt-dlp"),
            args: texts(&[
                "URL", "-f", "bestvideo+bestaudio/best", "-o",
                "/out/%(title)s_%(height)sp.%(ext)s", "--force-ipv4", "--no-check-certificates",
                "--merge-output-format", "mp4", "--prefer-ffmpeg",
            ]),
        }
    );
    assert_eq!(session.stage, Stage::Retry);
    let third = step(&mut session, Event::Exited(false));
    assert_eq!(third, Request::Finish(Err(DownloadError::DownloadFailed(MediaKind::Video))));
    assert_eq!(session.stage, Stage::Finished);
    assert!(!session.accepts(&Event::Exited(false)));
    assert!(!session.accepts(&Event::Exited(true)));
    assert!(!session.accepts(&Event::Cancelled));
}

#[test]
fn retry_that_succeeds_ends_in_success() {
    let mut session = at_kind(LISTING);
    step(&mut session, Event::Chosen(0));
    step(&mut session, Event::Chosen(0));
    step(&mut session, Event::Exited(false));
    assert_eq!(step(&mut session, Event::Exited(true)), Request::Finish(Ok(())));
}

#[test]
fn failed_audio_download_is_retried_with_the_best_audio() {
    let mut session = at_kind(LISTING);
    step(&mut session, Event::Chosen(1));
    step(&mut session, Event::Chosen(0));
    let retry = step(&mut session, Event::Exited(false));
    assert_eq!(
        retry,
        Request::Download {
            program: text("yt-dlp"),
            args: texts(&[
                "URL", "-f", "bestaudio", "-o", "/out/%(title)s.%(ext)s", "--force-ipv4",
                "--no-check-certificates", "-x", "--audio-format", "mp3", "--prefer-ffmpeg",
            ]),
        }
    );
    let end = step(&mut session, Event::Exited(false));
    assert_eq!(end, Request::Finish(Err(DownloadError::DownloadFailed(MediaKind::Audio))));
}

#[test]
fn url_is_asked_for_when_not_given() {
    let (mut session, _) = Session::new(None, Some(text("/out")), false);
    let request = step(&mut session, Event::ToolFound(true));
    assert_eq!(request, Request::Enter { prompt: text("Enter the URL to download"), default: None });
    assert_eq!(session.stage, Stage::Url);
    let request = step(&mut session, Event::Entered(text("https://example.com/v")));
    assert_eq!(request, Request::CreateDirectory { path: text("/out") });
    assert_eq!(session.url, Some(text("https://example.com/v")));
    let request = step(&mut session, Event::DirectoryCreated(true));
    assert_eq!(
        request,
        Request::ListFormats {
            program: text("yt-dlp"),
            args: texts(&["https://example.com/v", "-F", "--no-check-certificates", "--force-ipv4"]),
        }
    );
}

fn at_directory_menu() -> Session {
    let (mut session, _) = Session::new(Some(text("URL")), None, false);
    let request = step(&mut session, Event::ToolFound(true));
    assert_eq!(
        request,
        Request::Choose {
            prompt: text("Select download directory"),
            items: texts(&[
                "Current directory (./)",
                "Downloads directory (~/Downloads)",
                "Documents directory (~/Documents)",
                "Videos directory (~/Videos)",
                "Custom path (enter manually)",
            ]),
            preselected: 0,
        }
    );
    session
}

#[test]
fn directory_menu_offers_the_current_directory() {
    let mut session = at_directory_menu();
    let request = step(&mut session, Event::Chosen(0));
    assert_eq!(request, Request::CreateDirectory { path: text(".") });
    assert_eq!(session.output_dir, Some(text(".")));
}

#[test]
fn directory_menu_asks_the_system_for_known_directories() {
    let cases = [
        (1, KnownDirectory::Downloads, "./Downloads"),
        (2, KnownDirectory::Documents, "./Documents"),
        (3, KnownDirectory::Videos, "./Videos"),
    ];
    for (choice, known, fallback) in cases {
        let mut session = at_directory_menu();
        let request = step(&mut session, Event::Chosen(choice));
        assert_eq!(request, Request::FindDirectory(known));
        assert_eq!(session.stage, Stage::DirectoryLookup(known));
        let request = step(&mut session, Event::DirectoryFound(Some(text("/home/u/here"))));
        assert_eq!(request, Request::CreateDirectory { path: text("/home/u/here") });

        let mut session = at_directory_menu();
        step(&mut session, Event::Chosen(choice));
        let request = step(&mut session, Event::DirectoryFound(None));
        assert_eq!(request, Request::CreateDirectory { path: text(fallback) });
        assert_eq!(session.output_dir, Some(text(fallback)));
    }
}

#[test]
fn directory_menu_takes_a_custom_path() {
    let mut session = at_directory_menu();
    let request = step(&mut session, Event::Chosen(4));
    assert_eq!(
        request,
        Request::Enter { prompt: text("Enter custom download path"), default: Some(text("./downloads")) }
    );
    let request = step(&mut session, Event::Entered(text("/data/media")));
    assert_eq!(request, Request::CreateDirectory { path: text("/data/media") });
}

#[test]
fn directory_menu_has_five_items() {
    let session = at_directory_menu();
    assert!(session.accepts(&Event::Chosen(4)));
    assert!(!session.accepts(&Event::Chosen(5)));
    assert!(!session.accepts(&Event::Entered(text("x"))));
}

#[test]
fn directory_that_cannot_be_created_ends_the_session() {
    let (mut session, _) = Session::new(Some(text("URL")), Some(text("/out")), false);
    step(&mut session, Event::ToolFound(true));
    let request = step(&mut session, Event::DirectoryCreated(false));
    assert_eq!(request, Request::Finish(Err(DownloadError::DirectoryCreateFailed)));
    assert_eq!(session.output_dir, Some(text("/out")));
}

#[test]
fn listing_that_cannot_be_run_ends_the_session() {
    let (mut session, _) = Session::new(Some(text("URL")), Some(text("/out")), false);
    step(&mut session, Event::ToolFound(true));
    step(&mut session, Event::DirectoryCreated(true));
    let request = step(&mut session, Event::Listed(None));
    assert_eq!(request, Request::Finish(Err(DownloadError::ListFormatsFailed)));
}

#[test]
fn video_without_audio_formats_is_an_error() {
    let mut session = at_kind("299 mp4 1920x1080 2500k\n");
    let request = step(&mut session, Event::Chosen(0));
    assert_eq!(request, Request::Finish(Err(DownloadError::NoCompatibleFormat(MediaKind::Audio))));
    assert_eq!(session.stage, Stage::Finished);
}

#[test]
fn video_without_mp4_formats_is_an_error() {
    let mut session = at_kind("140 m4a audio only 128k\n248 webm 1920x1080 2500k\n");
    let request = step(&mut session, Event::Chosen(0));
    assert_eq!(request, Request::Finish(Err(DownloadError::NoCompatibleFormat(MediaKind::Video))));
}

#[test]
fn empty_listing_fails_for_want_of_audio_first() {
    let mut session = at_kind("");
    let request = step(&mut session, Event::Chosen(0));
    assert_eq!(request, Request::Finish(Err(DownloadError::NoCompatibleFormat(MediaKind::Audio))));
}

#[test]
fn cancelled_prompt_ends_the_session() {
    let (mut session, _) = Session::new(None, None, false);
    step(&mut session, Event::ToolFound(true));
    let request = step(&mut session, Event::Cancelled);
    assert_eq!(request, Request::Finish(Err(DownloadError::UserAborted)));
    let mut session = at_directory_menu();
    assert_eq!(step(&mut session, Event::Cancelled), Request::Finish(Err(DownloadError::UserAborted)));
    let mut session = at_kind(LISTING);
    assert_eq!(step(&mut session, Event::Cancelled), Request::Finish(Err(DownloadError::UserAborted)));
    let mut session = at_kind(LISTING);
    step(&mut session, Event::Chosen(0));
    assert_eq!(step(&mut session, Event::Cancelled), Request::Finish(Err(DownloadError::UserAborted)));
}

#[test]
fn only_prompts_can_be_cancelled() {
    let (mut session, _) = Session::new(Some(text("URL")), Some(text("/out")), false);
    assert!(!session.accepts(&Event::Cancelled));
    step(&mut session, Event::ToolFound(true));
    assert!(!session.accepts(&Event::Cancelled));
    step(&mut session, Event::DirectoryCreated(true));
    assert!(!session.accepts(&Event::Cancelled));
    assert!(!session.accepts(&Event::Exited(true)));
}

#[test]
fn quality_must_lie_on_the_menu() {
    let mut session = at_kind(LISTING);
    step(&mut session, Event::Chosen(0));
    assert!(session.accepts(&Event::Chosen(0)));
    assert!(!session.accepts(&Event::Chosen(1)));
}

#[test]
fn quality_menu_follows_the_listing() {
    let listing = "140 m4a audio only 128k\n251 webm audio only 160k\n\
        136 mp4 1280x720 1000k\n22 mp4 1280x720 1500k 50.2 MiB\n\
        137 mp4 1920x1080 2500k\n248 webm 1920x1080 3000k\n18 mp4 640x360 500k\n";
    let mut session = at_kind(listing);
    let request = step(&mut session, Event::Chosen(0));
    assert_eq!(
        request,
        Request::Choose {
            prompt: text("Select video quality"),
            items: texts(&["1080p MP4", "720p MP4 (~50.2 MiB)", "360p MP4"]),
            preselected: 0,
        }
    );
    let request = step(&mut session, Event::Chosen(1));
    assert_eq!(request, Request::Download { program: text("yt-dlp"), args: video_args("22+140") });
}

#[test]
fn audio_menu_downloads_the_format_chosen() {
    let mut session = at_kind("140 m4a audio only 128k\n251 webm audio only 160k 3.1 MiB\n");
    let request = step(&mut session, Event::Chosen(1));
    assert_eq!(
        request,
        Request::Choose {
            prompt: text("Select audio format"),
            items: texts(&[
                "140 - m4a",
                "251 - webm (3.1 MiB)",
                "Best audio (automatic selection)",
                "Custom format (enter format ID directly)",
            ]),
            preselected: 2,
        }
    );
    assert_eq!(session.kind, MediaKind::Audio);
    let request = step(&mut session, Event::Chosen(1));
    assert_eq!(request, Request::Download { program: text("yt-dlp"), args: audio_args("251") });
}

#[test]
fn audio_menu_default_is_the_best_audio() {
    let mut session = at_kind(LISTING);
    step(&mut session, Event::Chosen(1));
    let request = step(&mut session, Event::Chosen(1));
    assert_eq!(request, Request::Download { program: text("yt-dlp"), args: audio_args("bestaudio") });
}

#[test]
fn audio_menu_takes_a_custom_format() {
    let mut session = at_kind(LISTING);
    step(&mut session, Event::Chosen(1));
    let request = step(&mut session, Event::Chosen(2));
    assert_eq!(
        request,
        Request::Enter {
            prompt: text("Enter format ID or format specification (e.g. '140' or 'bestaudio')"),
            default: Some(text("bestaudio")),
        }
    );
    assert_eq!(session.stage, Stage::CustomFormat);
    let request = step(&mut session, Event::Entered(text("bestaudio[ext=m4a]")));
    assert_eq!(
        request,
        Request::Download { program: text("yt-dlp"), args: audio_args("bestaudio[ext=m4a]") }
    );
}

#[test]
fn audio_without_audio_formats_still_offers_the_best_audio() {
    let mut session = at_kind("299 mp4 1920x1080 2500k\n");
    let request = step(&mut session, Event::Chosen(7));
    assert_eq!(
        request,
        Request::Choose {
            prompt: text("Select audio format"),
            items: texts(&[
                "Best audio (automatic selection)",
                "Custom format (enter format ID directly)",
            ]),
            preselected: 0,
        }
    );
    let request = step(&mut session, Event::Chosen(0));
    assert_eq!(request, Request::Download { program: text("yt-dlp"), args: audio_args("bestaudio") });
}

#[test]
fn no_run_asks_for_more_than_two_downloads() {
    let outcomes = [[true, true], [false, true], [false, false], [true, false]];
    for kind in [0usize, 1] {
        for outcome in outcomes {
            let mut session = at_kind(LISTING);
            step(&mut session, Event::Chosen(kind));
            let mut request = step(&mut session, Event::Chosen(0));
            let mut downloads = 0;
            let mut exits = outcome.iter();
            loop {
                match request {
                    Request::Download { .. } => downloads += 1,
                    Request::Finish(_) => break,
                    _ => panic!("unexpected request"),
                }
                request = step(&mut session, Event::Exited(*exits.next().unwrap()));
            }
            assert_eq!(downloads, if outcome[0] { 1 } else { 2 });
        }
    }
}
