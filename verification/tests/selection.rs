use video_downloader::error::DownloadError;
use video_downloader::format::{parse_available_formats, FormatOption, MediaKind};
use video_downloader::menu::{
    audio_choice, audio_menu, bitrate, video_format_spec, video_menu, AudioChoice, MENU_LIMIT,
};
use video_downloader::select::{best_audio, classify};

fn format(id: &str, extension: &str, kind: MediaKind, resolution: Option<u32>, description: &str) -> FormatOption {
    FormatOption {
        id: id.to_string(),
        format_description: description.to_string(),
        resolution,
        kind,
        extension: extension.to_string(),
        filesize: None,
    }
}

fn video(id: &str, extension: &str, height: u32, description: &str) -> FormatOption {
    format(id, extension, MediaKind::Video, Some(height), description)
}

fn audio(id: &str, extension: &str) -> FormatOption {
    format(id, extension, MediaKind::Audio, None, "audio only")
}

fn ids(formats: &[FormatOption]) -> Vec<String> {
    formats.iter().map(|f| f.id.clone()).collect()
}

#[test]
fn classify_parts_by_kind_and_height() {
    let formats = vec![
        video("a", "mp4", 720, ""),
        audio("b", "m4a"),
        video("c", "webm", 1080, ""),
        format("d", "mp4", MediaKind::Video, None, ""),
        video("e", "webm", 720, ""),
        audio("f", "webm"),
        video("g", "mp4", 144, ""),
        format("h", "3gp", MediaKind::Video, None, ""),
    ];
    let c = classify(&formats);
    assert_eq!(ids(&c.audio), vec!["b", "f"]);
    let keys: Vec<Option<u32>> = c.video.iter().map(|g| g.resolution).collect();
    assert_eq!(keys, vec![None, Some(144), Some(720), Some(1080)]);
    assert_eq!(ids(&c.video[0].formats), vec!["d", "h"]);
    assert_eq!(ids(&c.video[1].formats), vec!["g"]);
    assert_eq!(ids(&c.video[2].formats), vec!["a", "e"]);
    assert_eq!(ids(&c.video[3].formats), vec!["c"]);
    assert_eq!(c.video[2].formats[0], formats[0]);
}

#[test]
fn classify_of_nothing_is_empty() {
    let c = classify(&[]);
    assert!(c.audio.is_empty());
    assert!(c.video.is_empty());
}

#[test]
fn classify_keeps_every_format_once() {
    let formats = parse_available_formats(
        "1 mp4 640x360 500k\n2 m4a audio only 128k\n3 webm 640x360\n4 mp4 unknown\n5 webm audio only\n",
    );
    let c = classify(&formats);
    let grouped: usize = c.video.iter().map(|g| g.formats.len()).sum();
    assert_eq!(grouped + c.audio.len(), formats.len());
    for g in &c.video {
        assert!(!g.formats.is_empty());
        for f in &g.formats {
            assert_eq!(f.kind, MediaKind::Video);
            assert_eq!(f.resolution, g.resolution);
        }
    }
}

#[test]
fn best_audio_prefers_m4a_in_either_order() {
    let one = vec![audio("140", "m4a"), audio("251", "webm")];
    let other = vec![audio("251", "webm"), audio("140", "m4a")];
    assert_eq!(best_audio(&one).unwrap().id, "140");
    assert_eq!(best_audio(&other).unwrap().id, "140");
}

#[test]
fn best_audio_takes_the_first_m4a() {
    let list = vec![audio("249", "webm"), audio("139", "m4a"), audio("140", "m4a")];
    assert_eq!(best_audio(&list).unwrap().id, "139");
}

#[test]
fn best_audio_without_m4a_is_the_first() {
    let list = vec![audio("249", "webm"), audio("250", "webm"), audio("600", "mp4")];
    assert_eq!(best_audio(&list).unwrap().id, "249");
    let upper = vec![audio("1", "M4A"), audio("2", "m4a ")];
    assert_eq!(best_audio(&upper).unwrap().id, "1");
}

#[test]
fn no_audio_is_an_error_and_no_panic() {
    assert_eq!(best_audio(&[]), Err(DownloadError::NoCompatibleFormat(MediaKind::Audio)));
}

#[test]
fn bitrate_is_the_number_before_the_k() {
    assert_eq!(bitrate("audio only tiny 128k"), 128);
    assert_eq!(bitrate("1920x1080 2500k"), 2500);
    assert_eq!(bitrate("2500k 128k"), 2500);
    assert_eq!(bitrate("128kk"), 128);
    assert_eq!(bitrate("+12k"), 12);
    assert_eq!(bitrate("0k"), 0);
}

#[test]
fn bitrate_defaults_to_zero() {
    assert_eq!(bitrate(""), 0);
    assert_eq!(bitrate("1920x1080 30fps"), 0);
    assert_eq!(bitrate("k"), 0);
    assert_eq!(bitrate("12.5k"), 0);
    assert_eq!(bitrate("disk 100k"), 0);
    assert_eq!(bitrate("4294967296k"), 0);
    assert_eq!(bitrate("128K"), 0);
}

#[test]
fn bitrate_has_the_range_of_32_bits() {
    assert_eq!(bitrate("4294967295k"), u32::MAX);
}

#[test]
fn seven_heights_give_the_five_highest() {
    let mut formats = Vec::new();
    for (i, h) in [1080u32, 1080, 720, 480, 360, 240, 144].iter().enumerate() {
        formats.push(video(&format!("v{}", i), "mp4", *h, "1000k"));
    }
    let menu = video_menu(&formats).unwrap();
    let heights: Vec<u32> = menu.iter().map(|q| q.resolution).collect();
    assert_eq!(heights, vec![1080, 720, 480, 360, 240]);
    assert_eq!(menu.len(), MENU_LIMIT);
}

#[test]
fn menu_is_sorted_whatever_the_order_of_the_listing() {
    let formats = vec![
        video("a", "mp4", 360, ""),
        video("b", "mp4", 2160, ""),
        video("c", "mp4", 144, ""),
        video("d", "mp4", 1080, ""),
        video("e", "mp4", 720, ""),
        video("f", "mp4", 1440, ""),
        video("g", "mp4", 480, ""),
    ];
    let menu = video_menu(&formats).unwrap();
    let chosen: Vec<(u32, String)> = menu.iter().map(|q| (q.resolution, q.format_id.clone())).collect();
    assert_eq!(
        chosen,
        vec![
            (2160, "b".to_string()),
            (1440, "f".to_string()),
            (1080, "d".to_string()),
            (720, "e".to_string()),
            (480, "g".to_string()),
        ]
    );
}

#[test]
fn menu_takes_the_highest_bitrate_of_each_height() {
    let formats = vec![
        video("low", "mp4", 1080, "avc1 1000k"),
        video("high", "mp4", 1080, "avc1 4500k"),
        video("mid", "mp4", 1080, "avc1 2500k"),
        video("webm", "webm", 1080, "vp9 9000k"),
    ];
    let menu = video_menu(&formats).unwrap();
    assert_eq!(menu.len(), 1);
    assert_eq!(menu[0].format_id, "high");
    assert_eq!(menu[0].resolution, 1080);
    assert_eq!(menu[0].description, "avc1 4500k");
    assert_eq!(menu[0].label, "1080p MP4");
}

#[test]
fn menu_takes_the_last_of_equal_bitrates() {
    let formats = vec![
        video("first", "mp4", 720, "1000k"),
        video("second", "mp4", 720, "1000k"),
        video("third", "mp4", 720, "900k"),
    ];
    assert_eq!(video_menu(&formats).unwrap()[0].format_id, "second");
    let unrated = vec![video("a", "mp4", 720, ""), video("b", "mp4", 720, ""), video("c", "mp4", 720, "")];
    assert_eq!(video_menu(&unrated).unwrap()[0].format_id, "c");
}

#[test]
fn menu_leaves_out_heights_without_mp4() {
    let formats = vec![
        video("a", "webm", 2160, ""),
        video("b", "mp4", 720, ""),
        video("c", "mkv", 1080, ""),
        format("d", "mp4", MediaKind::Video, None, ""),
        format("e", "mp4", MediaKind::Audio, Some(4320), "audio only"),
    ];
    let menu = video_menu(&formats).unwrap();
    assert_eq!(menu.len(), 1);
    assert_eq!(menu[0].format_id, "b");
}

#[test]
fn menu_label_shows_the_size() {
    let mut f = video("22", "mp4", 720, "hd");
    f.filesize = Some("100.5 MiB".to_string());
    let menu = video_menu(&[f]).unwrap();
    assert_eq!(menu[0].label, "720p MP4 (~100.5 MiB)");
}

#[test]
fn menu_of_height_zero_and_of_the_largest_height() {
    let formats = vec![video("a", "mp4", 0, ""), video("b", "mp4", u32::MAX, "")];
    let menu = video_menu(&formats).unwrap();
    assert_eq!(menu[0].label, "4294967295p MP4");
    assert_eq!(menu[1].label, "0p MP4");
}

#[test]
fn no_mp4_video_is_an_error() {
    let expected = Err(DownloadError::NoCompatibleFormat(MediaKind::Video));
    assert_eq!(video_menu(&[]), expected);
    assert_eq!(video_menu(&[audio("140", "m4a")]), expected);
    assert_eq!(video_menu(&[video("a", "webm", 1080, "")]), expected);
    assert_eq!(video_menu(&[format("d", "mp4", MediaKind::Video, None, "")]), expected);
}

#[test]
fn audio_menu_lists_the_formats_and_two_more_entries() {
    let mut sized = audio("140", "m4a");
    sized.filesize = Some("3.2 MiB".to_string());
    let menu = audio_menu(&[sized, audio("251", "webm")]);
    assert_eq!(
        menu.labels,
        vec![
            "140 - m4a (3.2 MiB)",
            "251 - webm",
            "Best audio (automatic selection)",
            "Custom format (enter format ID directly)",
        ]
    );
    assert_eq!(ids(&menu.shown), vec!["140", "251"]);
    assert_eq!(menu.default_choice, 2);
    assert!(!menu.truncated);
}

#[test]
fn audio_menu_shows_five_at_most() {
    let list: Vec<FormatOption> = (0..7).map(|i| audio(&i.to_string(), "webm")).collect();
    let menu = audio_menu(&list);
    assert_eq!(ids(&menu.shown), vec!["0", "1", "2", "3", "4"]);
    assert_eq!(menu.labels.len(), 7);
    assert_eq!(menu.default_choice, 5);
    assert!(menu.truncated);
    let five = audio_menu(&list[..5]);
    assert_eq!(five.shown.len(), 5);
    assert!(!five.truncated);
}

#[test]
fn audio_menu_without_formats_keeps_the_two_entries() {
    let menu = audio_menu(&[]);
    assert_eq!(
        menu.labels,
        vec!["Best audio (automatic selection)", "Custom format (enter format ID directly)"]
    );
    assert_eq!(menu.default_choice, 0);
    assert!(menu.shown.is_empty());
}

#[test]
fn audio_choice_reads_the_entry() {
    assert_eq!(audio_choice(3, 0), AudioChoice::Listed(0));
    assert_eq!(audio_choice(3, 2), AudioChoice::Listed(2));
    assert_eq!(audio_choice(3, 3), AudioChoice::Best);
    assert_eq!(audio_choice(3, 4), AudioChoice::Custom);
    assert_eq!(audio_choice(0, 0), AudioChoice::Best);
    assert_eq!(audio_choice(0, 1), AudioChoice::Custom);
    assert_eq!(audio_choice(3, usize::MAX), AudioChoice::Custom);
}

#[test]
fn format_spec_joins_video_and_audio() {
    assert_eq!(video_format_spec("299", "140"), "299+140");
    assert_eq!(video_format_spec("", ""), "+");
}
