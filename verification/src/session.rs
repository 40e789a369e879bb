//! The decisions of a download session.
//!
//! A session is a state machine. Each step takes what the caller has just
//! learned (an `Event`) and gives back what the caller has to do next (a
//! `Request`): look something up, ask the user, or run the downloader. The
//! session itself touches nothing outside: it reads no terminal and starts
//! no process.

use vstd::prelude::*;
use crate::command::{
    download_args, first_attempt_args, list_formats_args, listing_args, output_template, program,
    program_name, retry_args, retry_attempt_args, template_for,
};
use crate::error::DownloadError;
use crate::format::{
    format_views, listing_formats, parse_available_formats, FormatOption, FormatView, MediaKind,
};
use crate::menu::{
    audio_choice, audio_choice_of, audio_menu, audio_menu_labels, best_at, best_audio_spec,
    combined_spec, is_video_menu, menu_of, quality_views, video_format_spec, AudioChoice,
    QualityOption, QualityView, MENU_LIMIT,
};
use crate::select::{audio_formats, best_audio, best_audio_position, classify};
use crate::text::text_views;

verus! {

/// A directory that the system knows by its purpose.
#[derive(Clone, Copy, Debug, PartialEq, Eq, Structural)]
pub enum KnownDirectory {
    Downloads,
    Documents,
    Videos,
}

/// Where a session stands: what it waits for.
#[derive(Clone, Copy, Debug, PartialEq, Eq, Structural)]
pub enum Stage {
    /// For the outcome of the search for the downloader.
    Tool,
    /// For the URL that the user enters.
    Url,
    /// For the user's choice on the menu of directories.
    DirectoryMenu,
    /// For the path that the user enters.
    CustomDirectory,
    /// For the place of a directory that the system knows.
    DirectoryLookup(KnownDirectory),
    /// For the creation of the output directory.
    DirectoryCreation,
    /// For the listing of formats.
    Listing,
    /// For the user's choice between video and audio.
    Kind,
    /// For the user's choice on the menu of video qualities.
    Quality,
    /// For the user's choice on the menu of audio formats.
    AudioFormat,
    /// For the format specification that the user enters.
    CustomFormat,
    /// For the end of the first download attempt.
    Primary,
    /// For the end of the retry.
    Retry,
    /// For nothing: the session is over.
    Finished,
}

/// What the caller has to do next.
#[derive(Debug, PartialEq, Eq)]
pub enum Request {
    /// Look for `program` on the executable search path.
    FindTool { program: String },
    /// Ask the user for a text, offering `default` where there is one.
    Enter { prompt: String, default: Option<String> },
    /// Ask the user to choose one of `items`, offering the one at
    /// `preselected`.
    Choose { prompt: String, items: Vec<String>, preselected: usize },
    /// Ask the system where the directory is.
    FindDirectory(KnownDirectory),
    /// Create the directory at `path` with the directories above it.
    CreateDirectory { path: String },
    /// Run `program` with `args` and capture what it prints.
    ListFormats { program: String, args: Vec<String> },
    /// Run `program` with `args` and wait for its end.
    Download { program: String, args: Vec<String> },
    /// Stop, with this result.
    Finish(Result<(), DownloadError>),
}

/// The mathematical value of a `Request`.
pub enum RequestView {
    FindTool { program: Seq<char> },
    Enter { prompt: Seq<char>, default: Option<Seq<char>> },
    Choose { prompt: Seq<char>, items: Seq<Seq<char>>, preselected: usize },
    FindDirectory(KnownDirectory),
    CreateDirectory { path: Seq<char> },
    ListFormats { program: Seq<char>, args: Seq<Seq<char>> },
    Download { program: Seq<char>, args: Seq<Seq<char>> },
    Finish(Result<(), DownloadError>),
}

impl View for Request {
    type V = RequestView;

    open spec fn view(&self) -> RequestView {
        match *self {
            Request::FindTool { program } => RequestView::FindTool { program: program@ },
            Request::Enter { prompt, default } => RequestView::Enter {
                prompt: prompt@,
                default: match default {
                    Some(d) => Some(d@),
                    None => None,
                },
            },
            Request::Choose { prompt, items, preselected } => RequestView::Choose {
                prompt: prompt@,
                items: text_views(items@),
                preselected,
            },
            Request::FindDirectory(known) => RequestView::FindDirectory(known),
            Request::CreateDirectory { path } => RequestView::CreateDirectory { path: path@ },
            Request::ListFormats { program, args } => RequestView::ListFormats {
                program: program@,
                args: text_views(args@),
            },
            Request::Download { program, args } => RequestView::Download {
                program: program@,
                args: text_views(args@),
            },
            Request::Finish(result) => RequestView::Finish(result),
        }
    }
}

/// What the caller has learned since the last request.
#[derive(Debug, PartialEq, Eq)]
pub enum Event {
    /// Whether the downloader is on the search path.
    ToolFound(bool),
    /// The text that the user entered.
    Entered(String),
    /// The position of the item that the user chose.
    Chosen(usize),
    /// The user cancelled the prompt.
    Cancelled,
    /// The place of the directory, where the system knows one.
    DirectoryFound(Option<String>),
    /// Whether the output directory is there now.
    DirectoryCreated(bool),
    /// What the listing printed; nothing where it could not be run or read.
    Listed(Option<String>),
    /// Whether the download ended in success.
    Exited(bool),
}

/// A download session.
#[derive(Debug, PartialEq, Eq)]
pub struct Session {
    /// What the session waits for.
    pub stage: Stage,
    /// Whether the caller is to show the raw listing and the commands run.
    pub verbose: bool,
    /// The URL, once it is known.
    pub url: Option<String>,
    /// The output directory, once it is known.
    pub output_dir: Option<String>,
    /// The formats of the listing, once it is read.
    pub formats: Vec<FormatOption>,
    /// The kind of media that the user asked for.
    pub kind: MediaKind,
    /// The pattern for the name of the file to write.
    pub template: String,
    /// The audio format that goes with the video.
    pub partner: Option<FormatOption>,
    /// The menu of video qualities.
    pub qualities: Vec<QualityOption>,
    /// The audio formats on the audio menu.
    pub shown: Vec<FormatOption>,
}

/// The text that is there, or no text.
pub open spec fn text_of(text: Option<String>) -> Seq<char> {
    match text {
        Some(t) => t@,
        None => Seq::empty(),
    }
}

/// The identifier of the format that is there, or no text.
pub open spec fn id_of(format: Option<FormatOption>) -> Seq<char> {
    match format {
        Some(f) => f.id@,
        None => Seq::empty(),
    }
}

/// The items of the menu of directories.
pub open spec fn directory_labels() -> Seq<Seq<char>> {
    seq![
        "Current directory (./)"@,
        "Downloads directory (~/Downloads)"@,
        "Documents directory (~/Documents)"@,
        "Videos directory (~/Videos)"@,
        "Custom path (enter manually)"@,
    ]
}

/// The path used for a directory whose place the system does not know.
pub open spec fn fallback_directory(known: KnownDirectory) -> Seq<char> {
    match known {
        KnownDirectory::Downloads => "./Downloads"@,
        KnownDirectory::Documents => "./Documents"@,
        KnownDirectory::Videos => "./Videos"@,
    }
}

/// The labels of the entries of a menu of qualities.
pub open spec fn quality_labels(menu: Seq<QualityView>) -> Seq<Seq<char>> {
    menu.map_values(|q: QualityView| q.label)
}

/// The audio format that goes with a video, among the audio formats given.
pub open spec fn chosen_audio(audio: Seq<FormatView>) -> Option<FormatView> {
    match best_audio_position(audio) {
        Some(k) => Some(audio[k]),
        None => None,
    }
}

/// The audio formats that the audio menu shows: the first five at most.
pub open spec fn shown_formats(audio: Seq<FormatView>) -> Seq<FormatView> {
    if audio.len() < MENU_LIMIT {
        audio
    } else {
        audio.take(MENU_LIMIT as int)
    }
}

/// The session is over with `result`; nothing else has changed.
pub open spec fn finishes(
    pre: Session,
    post: Session,
    request: RequestView,
    result: Result<(), DownloadError>,
) -> bool {
    post == Session { stage: Stage::Finished, ..pre } && request == RequestView::Finish(result)
}

/// The output directory of `mid` is to be created.
pub open spec fn creates_directory(mid: Session, post: Session, request: RequestView) -> bool {
    post == Session { stage: Stage::DirectoryCreation, ..mid } && request
        == RequestView::CreateDirectory { path: text_of(mid.output_dir) }
}

/// The output directory is created if `mid` knows it, else asked for.
pub open spec fn asks_directory(mid: Session, post: Session, request: RequestView) -> bool {
    if mid.output_dir is Some {
        creates_directory(mid, post, request)
    } else {
        post == Session { stage: Stage::DirectoryMenu, ..mid } && request == RequestView::Choose {
            prompt: "Select download directory"@,
            items: directory_labels(),
            preselected: 0,
        }
    }
}

/// The URL is asked for unless `pre` knows it; then the directory has its
/// turn.
pub open spec fn asks_url(pre: Session, post: Session, request: RequestView) -> bool {
    if pre.url is Some {
        asks_directory(pre, post, request)
    } else {
        post == Session { stage: Stage::Url, ..pre } && request == RequestView::Enter {
            prompt: "Enter the URL to download"@,
            default: None,
        }
    }
}

/// What follows the user's choice on the menu of directories.
pub open spec fn chooses_directory(
    pre: Session,
    choice: usize,
    post: Session,
    request: RequestView,
) -> bool {
    if choice == 0 {
        post.output_dir matches Some(d) && d@ == "."@ && creates_directory(
            Session { output_dir: post.output_dir, ..pre },
            post,
            request,
        )
    } else if choice == 1 {
        post == Session { stage: Stage::DirectoryLookup(KnownDirectory::Downloads), ..pre }
            && request == RequestView::FindDirectory(KnownDirectory::Downloads)
    } else if choice == 2 {
        post == Session { stage: Stage::DirectoryLookup(KnownDirectory::Documents), ..pre }
            && request == RequestView::FindDirectory(KnownDirectory::Documents)
    } else if choice == 3 {
        post == Session { stage: Stage::DirectoryLookup(KnownDirectory::Videos), ..pre }
            && request == RequestView::FindDirectory(KnownDirectory::Videos)
    } else {
        post == Session { stage: Stage::CustomDirectory, ..pre } && request == RequestView::Enter {
            prompt: "Enter custom download path"@,
            default: Some("./downloads"@),
        }
    }
}

/// What follows the system's answer about a directory: the place that it
/// gave, or the fallback, is the output directory.
pub open spec fn finds_directory(
    pre: Session,
    known: KnownDirectory,
    found: Option<String>,
    post: Session,
    request: RequestView,
) -> bool {
    &&& post.output_dir matches Some(d) && d@ == match found {
        Some(place) => place@,
        None => fallback_directory(known),
    }
    &&& creates_directory(Session { output_dir: post.output_dir, ..pre }, post, request)
}

/// What follows the listing: its formats are read, and the user is asked
/// for the kind of media.
pub open spec fn reads_listing(
    pre: Session,
    text: Seq<char>,
    post: Session,
    request: RequestView,
) -> bool {
    &&& post == Session { stage: Stage::Kind, formats: post.formats, ..pre }
    &&& format_views(post.formats@) == listing_formats(text)
    &&& request == RequestView::Choose {
        prompt: "Select download type"@,
        items: seq!["Video"@, "Audio"@],
        preselected: 0,
    }
}

/// What follows the choice of the kind of media. The first item is video:
/// then the audio format that goes with it is picked and the menu of
/// qualities is built, and the session ends where either is not to be had.
/// Any other item is audio: then the audio menu is built.
pub open spec fn chooses_kind(
    pre: Session,
    choice: usize,
    post: Session,
    request: RequestView,
) -> bool {
    let fs = format_views(pre.formats@);
    let dir = text_of(pre.output_dir);
    if choice == 0 {
        if audio_formats(fs).len() == 0 {
            finishes(
                pre,
                post,
                request,
                Err(DownloadError::NoCompatibleFormat(MediaKind::Audio)),
            )
        } else if forall|h: u32| best_at(fs, h) is None {
            finishes(
                pre,
                post,
                request,
                Err(DownloadError::NoCompatibleFormat(MediaKind::Video)),
            )
        } else {
            &&& post == Session {
                stage: Stage::Quality,
                kind: MediaKind::Video,
                template: post.template,
                partner: post.partner,
                qualities: post.qualities,
                ..pre
            }
            &&& post.template@ == output_template(dir, MediaKind::Video)
            &&& post.partner matches Some(p) && Some(p@) == chosen_audio(audio_formats(fs))
            &&& post.qualities@.len() > 0
            &&& is_video_menu(fs, quality_views(post.qualities@))
            &&& request == RequestView::Choose {
                prompt: "Select video quality"@,
                items: quality_labels(quality_views(post.qualities@)),
                preselected: 0,
            }
        }
    } else {
        &&& post == Session {
            stage: Stage::AudioFormat,
            kind: MediaKind::Audio,
            template: post.template,
            shown: post.shown,
            ..pre
        }
        &&& post.template@ == output_template(dir, MediaKind::Audio)
        &&& format_views(post.shown@) == shown_formats(audio_formats(fs))
        &&& request == RequestView::Choose {
            prompt: "Select audio format"@,
            items: audio_menu_labels(format_views(post.shown@)),
            preselected: post.shown@.len() as usize,
        }
    }
}

/// The first download attempt is to be run with the format specification
/// `spec`.
pub open spec fn starts_download(
    pre: Session,
    spec: Seq<char>,
    post: Session,
    request: RequestView,
) -> bool {
    post == Session { stage: Stage::Primary, ..pre } && request == RequestView::Download {
        program: program_name(),
        args: download_args(pre.kind, text_of(pre.url), spec, pre.template@),
    }
}

/// What follows the choice on the audio menu: a format shown is downloaded
/// by its identifier, the automatic entry by the specification of the best
/// audio, and the custom entry asks for a specification.
pub open spec fn chooses_audio(
    pre: Session,
    choice: usize,
    post: Session,
    request: RequestView,
) -> bool {
    match audio_choice_of(pre.shown@.len(), choice as nat) {
        AudioChoice::Listed(k) => starts_download(pre, pre.shown@[k as int].id@, post, request),
        AudioChoice::Best => starts_download(pre, best_audio_spec(), post, request),
        AudioChoice::Custom => post == Session { stage: Stage::CustomFormat, ..pre } && request
            == RequestView::Enter {
            prompt: "Enter format ID or format specification (e.g. '140' or 'bestaudio')"@,
            default: Some(best_audio_spec()),
        },
    }
}

/// What follows the end of a download attempt: success ends the session;
/// after the first failure the retry is run, once; after the second the
/// session ends with the error of a failed download.
pub open spec fn ends_attempt(
    pre: Session,
    success: bool,
    post: Session,
    request: RequestView,
) -> bool {
    if success {
        finishes(pre, post, request, Ok(()))
    } else if pre.stage == Stage::Primary {
        post == Session { stage: Stage::Retry, ..pre } && request == RequestView::Download {
            program: program_name(),
            args: retry_args(pre.kind, text_of(pre.url), pre.template@),
        }
    } else {
        finishes(pre, post, request, Err(DownloadError::DownloadFailed(pre.kind)))
    }
}

/// Whether the session `pre` can take `event`: the event answers the
/// request that led to the stage, and a choice lies on the menu.
pub open spec fn accepts(pre: Session, event: Event) -> bool {
    match pre.stage {
        Stage::Tool => event is ToolFound,
        Stage::Url | Stage::CustomDirectory | Stage::CustomFormat => event is Entered || event
            is Cancelled,
        Stage::DirectoryMenu => event is Cancelled || (event matches Event::Chosen(i) && i < 5),
        Stage::DirectoryLookup(_) => event is DirectoryFound,
        Stage::DirectoryCreation => event is DirectoryCreated,
        Stage::Listing => event is Listed,
        Stage::Kind | Stage::AudioFormat => event is Chosen || event is Cancelled,
        Stage::Quality => event is Cancelled || (event matches Event::Chosen(i) && i
            < pre.qualities@.len()),
        Stage::Primary | Stage::Retry => event is Exited,
        Stage::Finished => false,
    }
}

/// Whether `post` and `request` are what the session `pre` makes of
/// `event`.
pub open spec fn follows(pre: Session, event: Event, post: Session, request: RequestView) -> bool {
    match event {
        Event::Cancelled => finishes(pre, post, request, Err(DownloadError::UserAborted)),
        Event::ToolFound(found) => if found {
            asks_url(pre, post, request)
        } else {
            finishes(pre, post, request, Err(DownloadError::ToolNotFound))
        },
        Event::Entered(text) => match pre.stage {
            Stage::Url => asks_directory(Session { url: Some(text), ..pre }, post, request),
            Stage::CustomDirectory => creates_directory(
                Session { output_dir: Some(text), ..pre },
                post,
                request,
            ),
            _ => starts_download(pre, text@, post, request),
        },
        Event::Chosen(choice) => match pre.stage {
            Stage::DirectoryMenu => chooses_directory(pre, choice, post, request),
            Stage::Kind => chooses_kind(pre, choice, post, request),
            Stage::Quality => starts_download(
                pre,
                combined_spec(pre.qualities@[choice as int].format_id@, id_of(pre.partner)),
                post,
                request,
            ),
            _ => chooses_audio(pre, choice, post, request),
        },
        Event::DirectoryFound(found) => match pre.stage {
            Stage::DirectoryLookup(known) => finds_directory(pre, known, found, post, request),
            _ => true,
        },
        Event::DirectoryCreated(created) => if created {
            post == Session { stage: Stage::Listing, ..pre } && request == RequestView::ListFormats {
                program: program_name(),
                args: listing_args(text_of(pre.url)),
            }
        } else {
            finishes(pre, post, request, Err(DownloadError::DirectoryCreateFailed))
        },
        Event::Listed(listing) => match listing {
            Some(text) => reads_listing(pre, text@, post, request),
            None => finishes(pre, post, request, Err(DownloadError::ListFormatsFailed)),
        },
        Event::Exited(success) => ends_attempt(pre, success, post, request),
    }
}

/// The number of times that the downloader can still be asked to download
/// from this stage on: twice before the first attempt, once more while it
/// runs, never after.
pub open spec fn attempts_left(stage: Stage) -> nat {
    match stage {
        Stage::Primary => 1,
        Stage::Retry | Stage::Finished => 0,
        _ => 2,
    }
}

/// What every step keeps: a request to download uses up one of the attempts
/// that are left, and no step gives one back.
pub open spec fn spends(before: Stage, download: bool, after: Stage) -> bool {
    attempts_left(after) + (if download {
        1nat
    } else {
        0nat
    }) <= attempts_left(before)
}

/// The number of steps of a run that asked for a download.
pub open spec fn downloads(asked: Seq<bool>) -> nat
    decreases asked.len(),
{
    if asked.len() == 0 {
        0
    } else {
        downloads(asked.drop_last()) + if asked.last() {
            1nat
        } else {
            0nat
        }
    }
}

/// In a run of steps, however long and whatever the events, the downloader
/// is asked to download twice at most: once with the user's choice, and once
/// more after a failure. `stages` holds the stage before each step and the
/// one after the last; `asked` tells of each step whether it asked for a
/// download.
pub proof fn lemma_two_attempts_at_most(stages: Seq<Stage>, asked: Seq<bool>)
    requires
        stages.len() == asked.len() + 1,
        forall|i: int|
            0 <= i < asked.len() ==> spends(#[trigger] stages[i], asked[i], stages[i + 1]),
    ensures
        downloads(asked) + attempts_left(stages.last()) <= attempts_left(stages[0]),
        downloads(asked) <= 2,
    decreases asked.len(),
{
    if asked.len() > 0 {
        let n = asked.len() - 1;
        assert(spends(stages[n], asked[n], stages[n + 1]));
        lemma_two_attempts_at_most(stages.drop_last(), asked.drop_last());
    }
}

/// Whether the session knows what its stage needs: the URL once the
/// directory is asked for, the directory once it is to be created, and the
/// menu and the kind of media on which a choice is awaited.
pub open spec fn is_sound(s: Session) -> bool {
    match s.stage {
        Stage::Tool | Stage::Url | Stage::Finished => true,
        Stage::DirectoryMenu | Stage::CustomDirectory | Stage::DirectoryLookup(_) => s.url
            is Some,
        Stage::DirectoryCreation | Stage::Listing | Stage::Kind => s.url is Some
            && s.output_dir is Some,
        Stage::Quality => s.url is Some && s.output_dir is Some && s.kind is Video && s.partner
            is Some && 0 < s.qualities@.len() <= MENU_LIMIT,
        Stage::AudioFormat | Stage::CustomFormat => s.url is Some && s.output_dir is Some
            && s.kind is Audio && s.shown@.len() <= MENU_LIMIT,
        Stage::Primary | Stage::Retry => s.url is Some && s.output_dir is Some,
    }
}

/// The text held, or an empty one.
fn text_or_empty(text: &Option<String>) -> (r: String)
    ensures
        r@ == text_of(*text),
{
    match text {
        Some(t) => t.clone(),
        None => String::new(),
    }
}

/// The items of the menu of directories.
fn directory_items() -> (items: Vec<String>)
    ensures
        text_views(items@) == directory_labels(),
{
    let mut items: Vec<String> = Vec::new();
    items.push(String::from_str("Current directory (./)"));
    items.push(String::from_str("Downloads directory (~/Downloads)"));
    items.push(String::from_str("Documents directory (~/Documents)"));
    items.push(String::from_str("Videos directory (~/Videos)"));
    items.push(String::from_str("Custom path (enter manually)"));
    assert(text_views(items@) == directory_labels());
    items
}

/// The path used for a directory whose place the system does not know.
fn fallback_for(known: KnownDirectory) -> (r: String)
    ensures
        r@ == fallback_directory(known),
{
    match known {
        KnownDirectory::Downloads => String::from_str("./Downloads"),
        KnownDirectory::Documents => String::from_str("./Documents"),
        KnownDirectory::Videos => String::from_str("./Videos"),
    }
}

/// The labels of the entries of `menu`.
fn labels_of(menu: &Vec<QualityOption>) -> (labels: Vec<String>)
    ensures
        text_views(labels@) == quality_labels(quality_views(menu@)),
{
    let n: usize = menu.len();
    let mut labels: Vec<String> = Vec::new();
    let mut i: usize = 0;
    while i < n
        invariant
            n == menu@.len(),
            i <= n,
            labels@.len() == i,
            forall|j: int| 0 <= j < i ==> (#[trigger] labels@[j])@ == menu@[j].label@,
        decreases n - i,
    {
        labels.push(menu[i].label.clone());
        i += 1;
    }
    assert(text_views(labels@) == quality_labels(quality_views(menu@)));
    labels
}

impl Session {
    /// Begins a session with what the command line gave: the URL and the
    /// output directory where they were given, and whether to be verbose.
    /// Before anything else the downloader is looked for.
    pub fn new(url: Option<String>, output_dir: Option<String>, verbose: bool) -> (r: (
        Session,
        Request,
    ))
        ensures
            r.0.stage == Stage::Tool,
            r.0.url == url,
            r.0.output_dir == output_dir,
            r.0.verbose == verbose,
            r.0.kind == MediaKind::Video,
            r.0.template@.len() == 0,
            r.0.partner is None,
            r.0.formats@.len() == 0,
            r.0.qualities@.len() == 0,
            r.0.shown@.len() == 0,
            is_sound(r.0),
            r.1@ == (RequestView::FindTool { program: program_name() }),
    {
        let session = Session {
            stage: Stage::Tool,
            verbose,
            url,
            output_dir,
            formats: Vec::new(),
            kind: MediaKind::Video,
            template: String::new(),
            partner: None,
            qualities: Vec::new(),
            shown: Vec::new(),
        };
        (session, Request::FindTool { program: program() })
    }

    /// Tells whether the session can take `event`.
    pub fn accepts(&self, event: &Event) -> (r: bool)
        ensures
            r == accepts(*self, *event),
    {
        match self.stage {
            Stage::Tool => match event {
                Event::ToolFound(_) => true,
                _ => false,
            },
            Stage::Url | Stage::CustomDirectory | Stage::CustomFormat => match event {
                Event::Entered(_) => true,
                Event::Cancelled => true,
                _ => false,
            },
            Stage::DirectoryMenu => match event {
                Event::Cancelled => true,
                Event::Chosen(i) => *i < 5,
                _ => false,
            },
            Stage::DirectoryLookup(_) => match event {
                Event::DirectoryFound(_) => true,
                _ => false,
            },
            Stage::DirectoryCreation => match event {
                Event::DirectoryCreated(_) => true,
                _ => false,
            },
            Stage::Listing => match event {
                Event::Listed(_) => true,
                _ => false,
            },
            Stage::Kind | Stage::AudioFormat => match event {
                Event::Chosen(_) => true,
                Event::Cancelled => true,
                _ => false,
            },
            Stage::Quality => match event {
                Event::Cancelled => true,
                Event::Chosen(i) => *i < self.qualities.len(),
                _ => false,
            },
            Stage::Primary | Stage::Retry => match event {
                Event::Exited(_) => true,
                _ => false,
            },
            Stage::Finished => false,
        }
    }

    /// Takes the next step: what `event` means at the session's stage.
    ///
    /// The downloader is looked for first, and its absence ends the session.
    /// Then the URL and the output directory are asked for where the command
    /// line did not give them, the directory is created, the formats are
    /// listed and read, and the user chooses the kind of media and the
    /// format. The download is tried; after a failure it is tried once more
    /// with a broad format specification, and never a third time. A prompt
    /// that the user cancels ends the session.
    pub fn step(&mut self, event: Event) -> (request: Request)
        requires
            accepts(*old(self), event),
        ensures
            follows(*old(self), event, *final(self), request@),
            spends(old(self).stage, request is Download, final(self).stage),
            is_sound(*old(self)) ==> is_sound(*final(self)),
            final(self).stage is Finished <==> request is Finish,
    {
        match event {
            Event::Cancelled => self.finish(Err(DownloadError::UserAborted)),
            Event::ToolFound(found) => {
                if found {
                    self.ask_url()
                } else {
                    self.finish(Err(DownloadError::ToolNotFound))
                }
            },
            Event::Entered(text) => match self.stage {
                Stage::Url => {
                    self.url = Some(text);
                    self.ask_directory()
                },
                Stage::CustomDirectory => {
                    self.output_dir = Some(text);
                    self.create_directory()
                },
                _ => self.start_download(text.as_str()),
            },
            Event::Chosen(choice) => match self.stage {
                Stage::DirectoryMenu => self.choose_directory(choice),
                Stage::Kind => self.choose_kind(choice),
                Stage::Quality => {
                    let audio_id = match &self.partner {
                        Some(p) => p.id.clone(),
                        None => String::new(),
                    };
                    let spec = video_format_spec(
                        self.qualities[choice].format_id.as_str(),
                        audio_id.as_str(),
                    );
                    self.start_download(spec.as_str())
                },
                _ => self.choose_audio(choice),
            },
            Event::DirectoryFound(found) => {
                let known = match self.stage {
                    Stage::DirectoryLookup(known) => known,
                    _ => KnownDirectory::Downloads,
                };
                let place = match found {
                    Some(place) => place,
                    None => fallback_for(known),
                };
                self.output_dir = Some(place);
                self.create_directory()
            },
            Event::DirectoryCreated(created) => {
                if created {
                    self.stage = Stage::Listing;
                    let url = text_or_empty(&self.url);
                    Request::ListFormats { program: program(), args: list_formats_args(url.as_str()) }
                } else {
                    self.finish(Err(DownloadError::DirectoryCreateFailed))
                }
            },
            Event::Listed(listing) => match listing {
                Some(text) => {
                    self.formats = parse_available_formats(text.as_str());
                    self.stage = Stage::Kind;
                    let mut items: Vec<String> = Vec::new();
                    items.push(String::from_str("Video"));
                    items.push(String::from_str("Audio"));
                    assert(text_views(items@) == seq!["Video"@, "Audio"@]);
                    Request::Choose {
                        prompt: String::from_str("Select download type"),
                        items,
                        preselected: 0,
                    }
                },
                None => self.finish(Err(DownloadError::ListFormatsFailed)),
            },
            Event::Exited(success) => {
                if success {
                    self.finish(Ok(()))
                } else {
                    match self.stage {
                        Stage::Primary => {
                            self.stage = Stage::Retry;
                            let url = text_or_empty(&self.url);
                            Request::Download {
                                program: program(),
                                args: retry_attempt_args(
                                    self.kind,
                                    url.as_str(),
                                    self.template.as_str(),
                                ),
                            }
                        },
                        _ => {
                            let kind = self.kind;
                            self.finish(Err(DownloadError::DownloadFailed(kind)))
                        },
                    }
                }
            },
        }
    }

    /// Ends the session.
    fn finish(&mut self, result: Result<(), DownloadError>) -> (request: Request)
        ensures
            finishes(*old(self), *final(self), request@, result),
    {
        self.stage = Stage::Finished;
        Request::Finish(result)
    }

    /// Asks for the creation of the output directory.
    fn create_directory(&mut self) -> (request: Request)
        ensures
            creates_directory(*old(self), *final(self), request@),
    {
        self.stage = Stage::DirectoryCreation;
        Request::CreateDirectory { path: text_or_empty(&self.output_dir) }
    }

    /// Turns to the output directory.
    fn ask_directory(&mut self) -> (request: Request)
        ensures
            asks_directory(*old(self), *final(self), request@),
    {
        if self.output_dir.is_some() {
            self.create_directory()
        } else {
            self.stage = Stage::DirectoryMenu;
            Request::Choose {
                prompt: String::from_str("Select download directory"),
                items: directory_items(),
                preselected: 0,
            }
        }
    }

    /// Turns to the URL.
    fn ask_url(&mut self) -> (request: Request)
        ensures
            asks_url(*old(self), *final(self), request@),
    {
        if self.url.is_some() {
            self.ask_directory()
        } else {
            self.stage = Stage::Url;
            Request::Enter { prompt: String::from_str("Enter the URL to download"), default: None }
        }
    }

    /// Reads the choice on the menu of directories.
    fn choose_directory(&mut self, choice: usize) -> (request: Request)
        ensures
            chooses_directory(*old(self), choice, *final(self), request@),
    {
        if choice == 0 {
            self.output_dir = Some(String::from_str("."));
            self.create_directory()
        } else if choice == 1 {
            self.stage = Stage::DirectoryLookup(KnownDirectory::Downloads);
            Request::FindDirectory(KnownDirectory::Downloads)
        } else if choice == 2 {
            self.stage = Stage::DirectoryLookup(KnownDirectory::Documents);
            Request::FindDirectory(KnownDirectory::Documents)
        } else if choice == 3 {
            self.stage = Stage::DirectoryLookup(KnownDirectory::Videos);
            Request::FindDirectory(KnownDirectory::Videos)
        } else {
            self.stage = Stage::CustomDirectory;
            Request::Enter {
                prompt: String::from_str("Enter custom download path"),
                default: Some(String::from_str("./downloads")),
            }
        }
    }

    /// Reads the choice of the kind of media and builds the menu for it.
    fn choose_kind(&mut self, choice: usize) -> (request: Request)
        ensures
            chooses_kind(*old(self), choice, *final(self), request@),
    {
        let ghost fs = format_views(self.formats@);
        let dir = text_or_empty(&self.output_dir);
        let c = classify(self.formats.as_slice());
        if choice == 0 {
            let partner = match best_audio(c.audio.as_slice()) {
                Ok(f) => f.clone(),
                Err(e) => {
                    return self.finish(Err(e));
                },
            };
            let menu = match menu_of(&c, Ghost(fs)) {
                Ok(menu) => menu,
                Err(e) => {
                    return self.finish(Err(e));
                },
            };
            let items = labels_of(&menu);
            proof {
                let audio = format_views(c.audio@);
                let k = best_audio_position(audio)->0;
                assert(audio[k] == c.audio@[k]@);
                assert(Some(partner@) == chosen_audio(audio_formats(fs)));
            }
            self.stage = Stage::Quality;
            self.kind = MediaKind::Video;
            self.template = template_for(dir.as_str(), MediaKind::Video);
            self.partner = Some(partner);
            self.qualities = menu;
            Request::Choose {
                prompt: String::from_str("Select video quality"),
                items,
                preselected: 0,
            }
        } else {
            let menu = audio_menu(c.audio.as_slice());
            proof {
                let audio = format_views(c.audio@);
                assert(audio.take(audio.len() as int) == audio);
                assert(format_views(menu.shown@) == shown_formats(audio_formats(fs)));
            }
            self.stage = Stage::AudioFormat;
            self.kind = MediaKind::Audio;
            self.template = template_for(dir.as_str(), MediaKind::Audio);
            self.shown = menu.shown;
            Request::Choose {
                prompt: String::from_str("Select audio format"),
                items: menu.labels,
                preselected: menu.default_choice,
            }
        }
    }

    /// Reads the choice on the audio menu.
    fn choose_audio(&mut self, choice: usize) -> (request: Request)
        ensures
            chooses_audio(*old(self), choice, *final(self), request@),
    {
        match audio_choice(self.shown.len(), choice) {
            AudioChoice::Listed(k) => {
                let id = self.shown[k].id.clone();
                self.start_download(id.as_str())
            },
            AudioChoice::Best => self.start_download("bestaudio"),
            AudioChoice::Custom => {
                self.stage = Stage::CustomFormat;
                Request::Enter {
                    prompt: String::from_str(
                        "Enter format ID or format specification (e.g. '140' or 'bestaudio')",
                    ),
                    default: Some(String::from_str("bestaudio")),
                }
            },
        }
    }

    /// Asks for the first download attempt.
    fn start_download(&mut self, spec: &str) -> (request: Request)
        ensures
            starts_download(*old(self), spec@, *final(self), request@),
    {
        self.stage = Stage::Primary;
        let url = text_or_empty(&self.url);
        Request::Download {
            program: program(),
            args: first_attempt_args(self.kind, url.as_str(), spec, self.template.as_str()),
        }
    }
}

} // verus!
