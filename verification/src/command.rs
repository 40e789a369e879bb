//! The argument lists with which the downloader is run: to list the formats
//! of a URL, to download, and to download once more after a failure.

use vstd::prelude::*;
use crate::format::MediaKind;
use crate::text::text_views;

verus! {

/// The name of the downloader on the executable search path.
pub open spec fn program_name() -> Seq<char> {
    "yt-dlp"@
}

/// The arguments that list the formats of `url`.
pub open spec fn listing_args(url: Seq<char>) -> Seq<Seq<char>> {
    seq![url, "-F"@, "--no-check-certificates"@, "--force-ipv4"@]
}

/// The pattern after which the downloader names the file that it writes into
/// `dir`. The downloader fills in the title, the height and the extension.
pub open spec fn output_template(dir: Seq<char>, kind: MediaKind) -> Seq<char> {
    match kind {
        MediaKind::Video => dir + "/%(title)s_%(height)sp.%(ext)s"@,
        MediaKind::Audio => dir + "/%(title)s.%(ext)s"@,
    }
}

/// The arguments of the first download attempt, with the format
/// specification `spec` that the user's choice stands for.
pub open spec fn download_args(
    kind: MediaKind,
    url: Seq<char>,
    spec: Seq<char>,
    template: Seq<char>,
) -> Seq<Seq<char>> {
    match kind {
        MediaKind::Video => seq![
            url,
            "-f"@,
            spec,
            "-o"@,
            template,
            "--progress"@,
            "--no-check-certificates"@,
            "--force-ipv4"@,
            "--geo-bypass"@,
            "--no-playlist"@,
            "--merge-output-format"@,
            "mp4"@,
            "--prefer-ffmpeg"@,
        ],
        MediaKind::Audio => seq![
            url,
            "-f"@,
            spec,
            "-o"@,
            template,
            "--progress"@,
            "--no-check-certificates"@,
            "--force-ipv4"@,
            "--geo-bypass"@,
            "--no-playlist"@,
            "-x"@,
            "--audio-format"@,
            "mp3"@,
            "--prefer-ffmpeg"@,
        ],
    }
}

/// The format specification of the retry: whatever is best, in place of the
/// formats that the user chose.
pub open spec fn retry_spec(kind: MediaKind) -> Seq<char> {
    match kind {
        MediaKind::Video => "bestvideo+bestaudio/best"@,
        MediaKind::Audio => "bestaudio"@,
    }
}

/// The arguments of the retry: the broad format specification and fewer
/// options.
pub open spec fn retry_args(kind: MediaKind, url: Seq<char>, template: Seq<char>) -> Seq<
    Seq<char>,
> {
    match kind {
        MediaKind::Video => seq![
            url,
            "-f"@,
            retry_spec(kind),
            "-o"@,
            template,
            "--force-ipv4"@,
            "--no-check-certificates"@,
            "--merge-output-format"@,
            "mp4"@,
            "--prefer-ffmpeg"@,
        ],
        MediaKind::Audio => seq![
            url,
            "-f"@,
            retry_spec(kind),
            "-o"@,
            template,
            "--force-ipv4"@,
            "--no-check-certificates"@,
            "-x"@,
            "--audio-format"@,
            "mp3"@,
            "--prefer-ffmpeg"@,
        ],
    }
}

/// Appends `text` to `args`.
fn push_text(args: &mut Vec<String>, text: &str)
    ensures
        text_views(final(args)@) == text_views(old(args)@).push(text@),
{
    let ghost before = text_views(args@);
    args.push(String::from_str(text));
    assert(text_views(args@) == before.push(text@));
}

/// The name under which the downloader is run.
pub fn program() -> (r: String)
    ensures
        r@ == program_name(),
{
    String::from_str("yt-dlp")
}

/// Builds the arguments that list the formats of `url`.
pub fn list_formats_args(url: &str) -> (args: Vec<String>)
    ensures
        text_views(args@) == listing_args(url@),
{
    let mut args: Vec<String> = Vec::new();
    assert(text_views(args@) == Seq::<Seq<char>>::empty());
    push_text(&mut args, url);
    push_text(&mut args, "-F");
    push_text(&mut args, "--no-check-certificates");
    push_text(&mut args, "--force-ipv4");
    assert(text_views(args@) == listing_args(url@));
    args
}

/// Builds the pattern for the name of the file written into `dir`.
pub fn template_for(dir: &str, kind: MediaKind) -> (r: String)
    ensures
        r@ == output_template(dir@, kind),
{
    let mut r = String::from_str(dir);
    match kind {
        MediaKind::Video => r.append("/%(title)s_%(height)sp.%(ext)s"),
        MediaKind::Audio => r.append("/%(title)s.%(ext)s"),
    }
    r
}

/// Builds the arguments of the first download attempt.
pub fn first_attempt_args(kind: MediaKind, url: &str, spec: &str, template: &str) -> (args: Vec<
    String,
>)
    ensures
        text_views(args@) == download_args(kind, url@, spec@, template@),
{
    let mut args: Vec<String> = Vec::new();
    assert(text_views(args@) == Seq::<Seq<char>>::empty());
    push_text(&mut args, url);
    push_text(&mut args, "-f");
    push_text(&mut args, spec);
    push_text(&mut args, "-o");
    push_text(&mut args, template);
    push_text(&mut args, "--progress");
    push_text(&mut args, "--no-check-certificates");
    push_text(&mut args, "--force-ipv4");
    push_text(&mut args, "--geo-bypass");
    push_text(&mut args, "--no-playlist");
    match kind {
        MediaKind::Video => {
            push_text(&mut args, "--merge-output-format");
            push_text(&mut args, "mp4");
        },
        MediaKind::Audio => {
            push_text(&mut args, "-x");
            push_text(&mut args, "--audio-format");
            push_text(&mut args, "mp3");
        },
    }
    push_text(&mut args, "--prefer-ffmpeg");
    assert(text_views(args@) == download_args(kind, url@, spec@, template@));
    args
}

/// Builds the arguments of the retry.
pub fn retry_attempt_args(kind: MediaKind, url: &str, template: &str) -> (args: Vec<String>)
    ensures
        text_views(args@) == retry_args(kind, url@, template@),
{
    let mut args: Vec<String> = Vec::new();
    assert(text_views(args@) == Seq::<Seq<char>>::empty());
    push_text(&mut args, url);
    push_text(&mut args, "-f");
    match kind {
        MediaKind::Video => push_text(&mut args, "bestvideo+bestaudio/best"),
        MediaKind::Audio => push_text(&mut args, "bestaudio"),
    }
    push_text(&mut args, "-o");
    push_text(&mut args, template);
    push_text(&mut args, "--force-ipv4");
    push_text(&mut args, "--no-check-certificates");
    match kind {
        MediaKind::Video => {
            push_text(&mut args, "--merge-output-format");
            push_text(&mut args, "mp4");
        },
        MediaKind::Audio => {
            push_text(&mut args, "-x");
            push_text(&mut args, "--audio-format");
            push_text(&mut args, "mp3");
        },
    }
    push_text(&mut args, "--prefer-ffmpeg");
    assert(text_views(args@) == retry_args(kind, url@, template@));
    args
}

} // verus!
