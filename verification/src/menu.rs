//! The menus that the user chooses from: the video qualities, with the best
//! format of each height, and the audio formats; and the format
//! specification that a choice stands for.

use vstd::prelude::*;
use vstd::slice::slice_subrange;
use crate::error::DownloadError;
use crate::format::{format_views, FormatOption, FormatView, MediaKind};
use crate::select::{classify, is_partition, precedes, video_at, Classified};
use crate::text::{
    chars_of, decimal_digits, decimal_string, find_from, lemma_find_from_is, parse_decimal,
    parse_u32, span_texts, text_views, token_spans, tokens, Span,
};

verus! {

/// The number of qualities that a menu offers at most, and of audio formats
/// that it shows at most.
pub const MENU_LIMIT: usize = 5;

/// The test for a word that ends in the letter of a bit rate.
pub open spec fn ends_in_k() -> spec_fn(Seq<char>) -> bool {
    |w: Seq<char>| w.len() > 0 && w.last() == 'k'
}

/// `w` without the letters `k` that it ends in.
pub open spec fn without_trailing_k(w: Seq<char>) -> Seq<char>
    decreases w.len(),
{
    if w.len() > 0 && w.last() == 'k' {
        without_trailing_k(w.drop_last())
    } else {
        w
    }
}

/// The bit rate that a description gives: its first word that ends in `k`
/// decides, and gives the number before the `k`. Without such a word, or
/// without a number in it, the rate is 0.
pub open spec fn bitrate_of(description: Seq<char>) -> u32 {
    let words = tokens(description);
    let k = find_from(words, ends_in_k(), 0);
    if k < words.len() {
        match parse_u32(without_trailing_k(words[k])) {
            Some(rate) => rate,
            None => 0,
        }
    } else {
        0
    }
}

/// Whether `f` is a video format in the container `mp4`.
pub open spec fn is_mp4_video(f: FormatView) -> bool {
    f.kind is Video && f.extension == "mp4"@
}

/// The position of the best format among `fs`: of the video formats in the
/// container `mp4`, the one with the highest bit rate, and of several with
/// that rate the last. None where `fs` holds no such format.
pub open spec fn best_mp4(fs: Seq<FormatView>) -> Option<int>
    decreases fs.len(),
{
    if fs.len() == 0 {
        None
    } else {
        let last = fs.len() - 1;
        match best_mp4(fs.drop_last()) {
            Some(b) => if is_mp4_video(fs[last]) && bitrate_of(fs[b].description) <= bitrate_of(
                fs[last].description,
            ) {
                Some(last)
            } else {
                Some(b)
            },
            None => if is_mp4_video(fs[last]) {
                Some(last)
            } else {
                None
            },
        }
    }
}

/// What `best_mp4` picks: a video format in the container `mp4` whose bit
/// rate none of the others exceeds and none of the later ones reaches.
pub proof fn lemma_best_mp4(fs: Seq<FormatView>)
    ensures
        match best_mp4(fs) {
            Some(b) => {
                &&& 0 <= b < fs.len()
                &&& is_mp4_video(fs[b])
                &&& forall|j: int|
                    0 <= j < fs.len() && is_mp4_video(#[trigger] fs[j]) ==> bitrate_of(
                        fs[j].description,
                    ) <= bitrate_of(fs[b].description)
                &&& forall|j: int|
                    b < j < fs.len() && is_mp4_video(#[trigger] fs[j]) ==> bitrate_of(
                        fs[j].description,
                    ) < bitrate_of(fs[b].description)
            },
            None => forall|j: int| 0 <= j < fs.len() ==> !is_mp4_video(#[trigger] fs[j]),
        },
    decreases fs.len(),
{
    if fs.len() > 0 {
        let init = fs.drop_last();
        lemma_best_mp4(init);
        assert forall|j: int| 0 <= j < init.len() implies init[j] == fs[j] by {}
        match best_mp4(init) {
            Some(b) => {
                assert(init[b] == fs[b]);
            },
            None => {},
        }
    }
}

/// The best video format of height `h` among `fs`, if there is one in the
/// container `mp4`.
pub open spec fn best_at(fs: Seq<FormatView>, h: u32) -> Option<FormatView> {
    let group = video_at(fs, Some(h));
    match best_mp4(group) {
        Some(b) => Some(group[b]),
        None => None,
    }
}

/// One entry of the menu of video qualities.
#[derive(Debug, PartialEq, Eq)]
pub struct QualityOption {
    /// What the menu shows.
    pub label: String,
    /// The identifier of the video format that the entry stands for.
    pub format_id: String,
    /// The height of the picture.
    pub resolution: u32,
    /// The description of the format.
    pub description: String,
}

/// The mathematical value of a `QualityOption`.
pub struct QualityView {
    pub label: Seq<char>,
    pub format_id: Seq<char>,
    pub resolution: u32,
    pub description: Seq<char>,
}

impl View for QualityOption {
    type V = QualityView;

    open spec fn view(&self) -> QualityView {
        QualityView {
            label: self.label@,
            format_id: self.format_id@,
            resolution: self.resolution,
            description: self.description@,
        }
    }
}

/// The values of a sequence of menu entries, in the same order.
pub open spec fn quality_views(menu: Seq<QualityOption>) -> Seq<QualityView> {
    menu.map_values(|q: QualityOption| q@)
}

/// A size between brackets, as a label shows it after `opening`; nothing
/// where no size is known.
pub open spec fn size_note(opening: Seq<char>, size: Option<Seq<char>>) -> Seq<char> {
    match size {
        Some(s) => opening + s + seq![')'],
        None => Seq::empty(),
    }
}

/// The label of a quality: the height, `p MP4`, and the size where it is
/// known.
pub open spec fn quality_label(h: u32, size: Option<Seq<char>>) -> Seq<char> {
    decimal_digits(h as nat) + "p MP4"@ + size_note(" (~"@, size)
}

/// The menu entry for the format `f` of height `h`.
pub open spec fn quality_of(h: u32, f: FormatView) -> QualityView {
    QualityView {
        label: quality_label(h, f.filesize),
        format_id: f.id,
        resolution: h,
        description: f.description,
    }
}

/// Whether `menu` is the menu of video qualities for the formats `fs`:
/// it has five entries at most; the heights fall from entry to entry; each
/// entry stands for the best format of its height; and a height that offers
/// a format in the container `mp4` is left out only below five that are in.
pub open spec fn is_video_menu(fs: Seq<FormatView>, menu: Seq<QualityView>) -> bool {
    &&& menu.len() <= MENU_LIMIT
    &&& forall|i: int, j: int|
        0 <= i < j < menu.len() ==> (#[trigger] menu[i]).resolution > (#[trigger] menu[j]).resolution
    &&& forall|i: int|
        0 <= i < menu.len() ==> best_at(fs, (#[trigger] menu[i]).resolution) is Some && menu[i]
            == quality_of(menu[i].resolution, best_at(fs, menu[i].resolution)->0)
    &&& forall|h: u32| #[trigger]
        best_at(fs, h) is Some ==> (exists|i: int|
            0 <= i < menu.len() && (#[trigger] menu[i]).resolution == h) || (menu.len()
            == MENU_LIMIT && h < menu[MENU_LIMIT - 1].resolution)
}

/// Of two menus for the same formats that agree before position `i`, the
/// first has no greater height at `i` than the second.
proof fn lemma_menu_height_bound(
    fs: Seq<FormatView>,
    a: Seq<QualityView>,
    b: Seq<QualityView>,
    i: int,
)
    requires
        is_video_menu(fs, a),
        is_video_menu(fs, b),
        0 <= i < a.len(),
        i < b.len(),
        forall|j: int| 0 <= j < i ==> (#[trigger] a[j]).resolution == b[j].resolution,
    ensures
        a[i].resolution <= b[i].resolution,
{
    let h = a[i].resolution;
    if h > b[i].resolution {
        assert(best_at(fs, h) is Some);
        if exists|k: int| 0 <= k < b.len() && (#[trigger] b[k]).resolution == h {
            let k = choose|k: int| 0 <= k < b.len() && (#[trigger] b[k]).resolution == h;
            if k < i {
                assert(a[k].resolution == b[k].resolution);
                assert(a[k].resolution > a[i].resolution);
            } else if k > i {
                assert(b[i].resolution > b[k].resolution);
            }
        } else {
            if i < MENU_LIMIT - 1 {
                assert(b[i].resolution > b[MENU_LIMIT - 1].resolution);
            }
        }
    }
}

/// Two menus for the same formats hold the same heights at the positions
/// before `i`.
proof fn lemma_menu_heights_agree(
    fs: Seq<FormatView>,
    a: Seq<QualityView>,
    b: Seq<QualityView>,
    i: int,
)
    requires
        is_video_menu(fs, a),
        is_video_menu(fs, b),
        0 <= i <= a.len(),
        i <= b.len(),
    ensures
        forall|j: int| 0 <= j < i ==> (#[trigger] a[j]).resolution == b[j].resolution,
    decreases i,
{
    if i > 0 {
        lemma_menu_heights_agree(fs, a, b, i - 1);
        lemma_menu_heights_agree(fs, b, a, i - 1);
        lemma_menu_height_bound(fs, a, b, i - 1);
        lemma_menu_height_bound(fs, b, a, i - 1);
    }
}

/// Of two menus for the same formats the second is no longer than the first.
proof fn lemma_menu_length_bound(fs: Seq<FormatView>, a: Seq<QualityView>, b: Seq<QualityView>)
    requires
        is_video_menu(fs, a),
        is_video_menu(fs, b),
    ensures
        b.len() <= a.len(),
{
    if a.len() < b.len() {
        let n = a.len() as int;
        lemma_menu_heights_agree(fs, a, b, n);
        let h = b[n].resolution;
        assert(best_at(fs, h) is Some);
        let k = choose|k: int| 0 <= k < a.len() && (#[trigger] a[k]).resolution == h;
        assert(a[k].resolution == b[k].resolution);
        assert(b[k].resolution > b[n].resolution);
    }
}

/// The formats decide their menu: two menus for the same formats are equal.
pub proof fn lemma_video_menu_unique(
    fs: Seq<FormatView>,
    a: Seq<QualityView>,
    b: Seq<QualityView>,
)
    requires
        is_video_menu(fs, a),
        is_video_menu(fs, b),
    ensures
        a == b,
{
    lemma_menu_length_bound(fs, a, b);
    lemma_menu_length_bound(fs, b, a);
    lemma_menu_heights_agree(fs, a, b, a.len() as int);
    assert forall|i: int| 0 <= i < a.len() implies a[i] == b[i] by {
        assert(a[i].resolution == b[i].resolution);
    }
    assert(a =~= b);
}

/// The label of an audio format: identifier, extension, and the size where
/// it is known.
pub open spec fn audio_label(f: FormatView) -> Seq<char> {
    f.id + " - "@ + f.extension + size_note(" ("@, f.filesize)
}

/// The menu entry that leaves the choice of the audio format to the
/// downloader.
pub open spec fn best_audio_label() -> Seq<char> {
    "Best audio (automatic selection)"@
}

/// The menu entry that lets the user write a format specification.
pub open spec fn custom_format_label() -> Seq<char> {
    "Custom format (enter format ID directly)"@
}

/// The entries of the audio menu for the formats shown: their labels, then
/// the automatic choice, then the custom one.
pub open spec fn audio_menu_labels(shown: Seq<FormatView>) -> Seq<Seq<char>> {
    shown.map_values(|f: FormatView| audio_label(f)).push(best_audio_label()).push(
        custom_format_label(),
    )
}

/// The menu of audio formats.
#[derive(Debug, PartialEq, Eq)]
pub struct AudioMenu {
    /// The formats on the menu: the first five of the listing at most.
    pub shown: Vec<FormatOption>,
    /// The entries: one for each format shown, then the automatic choice and
    /// the custom one.
    pub labels: Vec<String>,
    /// The entry that is chosen unless the user picks another: the automatic
    /// choice.
    pub default_choice: usize,
    /// Whether the listing holds audio formats that the menu does not show.
    pub truncated: bool,
}

/// What the user chose on the audio menu.
#[derive(Clone, Copy, Debug, PartialEq, Eq, Structural)]
pub enum AudioChoice {
    /// The format shown at this position.
    Listed(usize),
    /// The downloader's own choice.
    Best,
    /// A format specification that the user writes.
    Custom,
}

/// The meaning of entry `selected` on a menu that shows `shown` formats.
pub open spec fn audio_choice_of(shown: nat, selected: nat) -> AudioChoice {
    if selected < shown {
        AudioChoice::Listed(selected as usize)
    } else if selected == shown {
        AudioChoice::Best
    } else {
        AudioChoice::Custom
    }
}

/// The specification that lets the downloader choose the audio format.
pub open spec fn best_audio_spec() -> Seq<char> {
    "bestaudio"@
}

/// The specification of a video with its audio: the two identifiers with a
/// plus sign between them.
pub open spec fn combined_spec(video_id: Seq<char>, audio_id: Seq<char>) -> Seq<char> {
    video_id + seq!['+'] + audio_id
}

/// The number of characters of `w` before the letters `k` that it ends in.
fn trimmed_len(w: &[char]) -> (n: usize)
    ensures
        n <= w@.len(),
        w@.take(n as int) == without_trailing_k(w@),
{
    let mut end: usize = w.len();
    assert(w@.take(end as int) == w@);
    while end > 0 && w[end - 1] == 'k'
        invariant
            end <= w@.len(),
            without_trailing_k(w@) == without_trailing_k(w@.take(end as int)),
        decreases end,
    {
        assert(w@.take(end as int).drop_last() == w@.take(end - 1));
        end -= 1;
    }
    end
}

/// Reads the bit rate from a format's description.
pub fn bitrate(description: &str) -> (r: u32)
    ensures
        r == bitrate_of(description@),
{
    let chars = chars_of(description);
    let spans = token_spans(chars.as_slice());
    let ghost words = tokens(description@);
    let count: usize = spans.len();
    let mut k: usize = 0;
    while k < count
        invariant
            chars@ == description@,
            count == spans@.len(),
            words == tokens(description@),
            words == span_texts(chars@, spans@),
            forall|j: int|
                0 <= j < spans.len() ==> (#[trigger] spans[j]).start < spans[j].end <= chars@.len(),
            k <= count,
            forall|j: int| 0 <= j < k ==> !ends_in_k()(#[trigger] words[j]),
        decreases count - k,
    {
        let span: Span = spans[k];
        let w = slice_subrange(chars.as_slice(), span.start, span.end);
        assert(w@ == words[k as int]);
        if w[w.len() - 1] == 'k' {
            let kept: usize = trimmed_len(w);
            let number = slice_subrange(w, 0, kept);
            proof {
                assert(number@ == w@.take(kept as int));
                assert(ends_in_k()(words[k as int]));
                lemma_find_from_is(words, ends_in_k(), 0, k as int);
            }
            return match parse_decimal(number) {
                Some(rate) => rate,
                None => 0,
            };
        }
        k += 1;
    }
    proof {
        lemma_find_from_is(words, ends_in_k(), 0, count as int);
    }
    0
}

/// The position of the best format among `group`.
fn best_mp4_index(group: &[FormatOption]) -> (r: Option<usize>)
    ensures
        match r {
            Some(b) => b < group@.len() && best_mp4(format_views(group@)) == Some(b as int),
            None => best_mp4(format_views(group@)) is None,
        },
{
    let ghost fs = format_views(group@);
    let n: usize = group.len();
    let mp4 = String::from_str("mp4");
    let mut best: Option<usize> = None;
    let mut best_rate: u32 = 0;
    let mut i: usize = 0;
    while i < n
        invariant
            n == group@.len(),
            fs == format_views(group@),
            mp4@ == "mp4"@,
            i <= n,
            match best {
                Some(b) => b < i && best_mp4(fs.take(i as int)) == Some(b as int) && best_rate
                    == bitrate_of(fs[b as int].description),
                None => best_mp4(fs.take(i as int)) is None,
            },
        decreases n - i,
    {
        let f = &group[i];
        proof {
            let next = fs.take(i + 1);
            assert(next.drop_last() == fs.take(i as int));
            assert(next[i as int] == fs[i as int]);
            assert(fs[i as int] == f@);
            match best {
                Some(b) => {
                    assert(next[b as int] == fs[b as int]);
                },
                None => {},
            }
        }
        if f.is_video() && f.extension == mp4 {
            let rate: u32 = bitrate(f.format_description.as_str());
            let better = match best {
                Some(_) => best_rate <= rate,
                None => true,
            };
            if better {
                best = Some(i);
                best_rate = rate;
            }
        }
        i += 1;
    }
    assert(fs.take(n as int) == fs);
    best
}

/// Makes the menu entry for the format `f` of height `h`.
fn quality_option(h: u32, f: &FormatOption) -> (q: QualityOption)
    ensures
        q@ == quality_of(h, f@),
{
    let mut label = decimal_string(h);
    label.append("p MP4");
    match &f.filesize {
        Some(size) => {
            proof {
                reveal_strlit(")");
            }
            label.append(" (~");
            label.append(size.as_str());
            label.append(")");
            assert(label@ == quality_label(h, f@.filesize));
        },
        None => {
            assert(label@ == quality_label(h, f@.filesize));
        },
    }
    QualityOption {
        label,
        format_id: f.id.clone(),
        resolution: h,
        description: f.format_description.clone(),
    }
}

/// The menu for formats that are classified already.
fn group_menu(c: &Classified, Ghost(fs): Ghost<Seq<FormatView>>) -> (menu: Vec<QualityOption>)
    requires
        is_partition(fs, c@),
    ensures
        is_video_menu(fs, quality_views(menu@)),
{
    let ghost groups = c@.video;
    let n: usize = c.video.len();
    let mut menu: Vec<QualityOption> = Vec::new();
    let mut k: usize = n;
    while k > 0 && menu.len() < MENU_LIMIT
        invariant
            is_partition(fs, c@),
            groups == c@.video,
            n == groups.len(),
            k <= n,
            menu@.len() <= MENU_LIMIT,
            forall|i: int, j: int|
                0 <= i < j < menu@.len() ==> (#[trigger] menu@[i]).resolution > (
                #[trigger] menu@[j]).resolution,
            forall|i: int|
                0 <= i < menu@.len() ==> best_at(fs, (#[trigger] menu@[i]).resolution) is Some
                    && menu@[i]@ == quality_of(
                    menu@[i].resolution,
                    best_at(fs, menu@[i].resolution)->0,
                ),
            forall|i: int, j: int|
                0 <= i < menu@.len() && 0 <= j < k ==> precedes(
                    (#[trigger] groups[j]).resolution,
                    Some((#[trigger] menu@[i]).resolution),
                ),
            forall|j: int|
                k <= j < n && (#[trigger] groups[j]).resolution is Some && best_at(
                    fs,
                    groups[j].resolution->0,
                ) is Some ==> exists|i: int|
                    0 <= i < menu@.len() && (#[trigger] menu@[i]).resolution
                        == groups[j].resolution->0,
        decreases k,
    {
        k -= 1;
        let group = &c.video[k];
        assert(groups[k as int] == group@);
        let ghost before = menu@;
        match group.resolution {
            Some(h) => {
                match best_mp4_index(group.formats.as_slice()) {
                    Some(b) => {
                        let q = quality_option(h, &group.formats[b]);
                        menu.push(q);
                        proof {
                            assert(best_at(fs, h) == Some(group.formats@[b as int]@));
                            assert forall|i: int, j: int|
                                0 <= i < menu@.len() && 0 <= j < k implies precedes(
                                (#[trigger] groups[j]).resolution,
                                Some((#[trigger] menu@[i]).resolution),
                            ) by {
                                if i < before.len() {
                                    assert(menu@[i] == before[i]);
                                } else {
                                    assert(precedes(groups[j].resolution, groups[k as int].resolution));
                                }
                            }
                            assert forall|i: int, j: int| 0 <= i < j < menu@.len() implies (
                            #[trigger] menu@[i]).resolution > (#[trigger] menu@[j]).resolution by {
                                if j < before.len() {
                                    assert(menu@[i] == before[i] && menu@[j] == before[j]);
                                } else {
                                    assert(menu@[i] == before[i]);
                                    assert(precedes(
                                        groups[k as int].resolution,
                                        Some(before[i].resolution),
                                    ));
                                }
                            }
                            assert forall|j: int|
                                k <= j < n && (#[trigger] groups[j]).resolution is Some && best_at(
                                    fs,
                                    groups[j].resolution->0,
                                ) is Some implies exists|i: int|
                                0 <= i < menu@.len() && (#[trigger] menu@[i]).resolution
                                    == groups[j].resolution->0 by {
                                let g = groups[j].resolution->0;
                                if j == k {
                                    assert(menu@[before.len() as int].resolution == g);
                                } else {
                                    let i = choose|i: int|
                                        0 <= i < before.len() && (#[trigger] before[i]).resolution
                                            == g;
                                    assert(menu@[i] == before[i]);
                                }
                            }
                        }
                    },
                    None => {},
                }
            },
            None => {},
        }
    }
    proof {
        let views = quality_views(menu@);
        assert forall|i: int| 0 <= i < views.len() implies #[trigger] views[i] == menu@[i]@ by {}
        assert forall|i: int, j: int| 0 <= i < j < views.len() implies (
        #[trigger] views[i]).resolution > (#[trigger] views[j]).resolution by {
            assert(menu@[i].resolution > menu@[j].resolution);
        }
        assert forall|i: int| 0 <= i < views.len() implies best_at(
            fs,
            (#[trigger] views[i]).resolution,
        ) is Some && views[i] == quality_of(
            views[i].resolution,
            best_at(fs, views[i].resolution)->0,
        ) by {
            assert(menu@[i]@ == views[i]);
        }
        assert forall|h: u32| #[trigger] best_at(fs, h) is Some implies (exists|i: int|
            0 <= i < views.len() && (#[trigger] views[i]).resolution == h) || (views.len()
            == MENU_LIMIT && h < views[MENU_LIMIT - 1].resolution) by {
            assert(video_at(fs, Some(h)).len() > 0);
            let j = choose|j: int| 0 <= j < groups.len() && (#[trigger] groups[j]).resolution == Some(h);
            if j >= k {
                let i = choose|i: int| 0 <= i < menu@.len() && (#[trigger] menu@[i]).resolution == h;
                assert(views[i].resolution == h);
            } else {
                assert(precedes(groups[j].resolution, Some(menu@[MENU_LIMIT - 1].resolution)));
                assert(views[MENU_LIMIT - 1] == menu@[MENU_LIMIT - 1]@);
            }
        }
    }
    menu
}

/// Builds the menu of video qualities: for each height that offers a video
/// format in the container `mp4`, the best such format; the highest height
/// first; five entries at most. A listing that offers none gives the error
/// of no compatible video format, and nothing else does.
pub fn video_menu(formats: &[FormatOption]) -> (r: Result<Vec<QualityOption>, DownloadError>)
    ensures
        r matches Ok(menu) ==> menu@.len() > 0 && is_video_menu(
            format_views(formats@),
            quality_views(menu@),
        ),
        r matches Err(e) ==> e == DownloadError::NoCompatibleFormat(MediaKind::Video),
        r is Err <==> forall|h: u32| best_at(format_views(formats@), h) is None,
{
    let c = classify(formats);
    menu_of(&c, Ghost(format_views(formats@)))
}

/// The menu, or the error of an empty one, for formats that are classified
/// already.
pub(crate) fn menu_of(c: &Classified, Ghost(fs): Ghost<Seq<FormatView>>) -> (r: Result<
    Vec<QualityOption>,
    DownloadError,
>)
    requires
        is_partition(fs, c@),
    ensures
        r matches Ok(menu) ==> menu@.len() > 0 && is_video_menu(fs, quality_views(menu@)),
        r matches Err(e) ==> e == DownloadError::NoCompatibleFormat(MediaKind::Video),
        r is Err <==> forall|h: u32| best_at(fs, h) is None,
{
    let menu = group_menu(c, Ghost(fs));
    if menu.len() == 0 {
        proof {
            assert forall|h: u32| best_at(fs, h) is None by {
                if best_at(fs, h) is Some {
                    assert(false);
                }
            }
        }
        Err(DownloadError::NoCompatibleFormat(MediaKind::Video))
    } else {
        proof {
            let first = quality_views(menu@)[0];
            assert(best_at(fs, first.resolution) is Some);
        }
        Ok(menu)
    }
}

/// Makes the label of an audio format.
fn audio_label_of(f: &FormatOption) -> (label: String)
    ensures
        label@ == audio_label(f@),
{
    let mut label = f.id.clone();
    label.append(" - ");
    label.append(f.extension.as_str());
    match &f.filesize {
        Some(size) => {
            proof {
                reveal_strlit(")");
            }
            label.append(" (");
            label.append(size.as_str());
            label.append(")");
            assert(label@ == audio_label(f@));
        },
        None => {
            assert(label@ == audio_label(f@));
        },
    }
    label
}

/// Builds the audio menu from the audio formats of a listing: the first five
/// at most are shown, the automatic choice follows them and is the default,
/// and the custom entry comes last.
pub fn audio_menu(audio: &[FormatOption]) -> (menu: AudioMenu)
    ensures
        menu.shown@.len() == if audio@.len() < MENU_LIMIT {
            audio@.len()
        } else {
            MENU_LIMIT as nat
        },
        format_views(menu.shown@) == format_views(audio@).take(menu.shown@.len() as int),
        text_views(menu.labels@) == audio_menu_labels(format_views(menu.shown@)),
        menu.default_choice == menu.shown@.len(),
        menu.truncated == (audio@.len() > MENU_LIMIT),
{
    let ghost fs = format_views(audio@);
    let n: usize = audio.len();
    let count: usize = if n < MENU_LIMIT {
        n
    } else {
        MENU_LIMIT
    };
    let mut shown: Vec<FormatOption> = Vec::new();
    let mut labels: Vec<String> = Vec::new();
    let mut i: usize = 0;
    while i < count
        invariant
            fs == format_views(audio@),
            count <= audio@.len(),
            i <= count,
            shown@.len() == i,
            labels@.len() == i,
            format_views(shown@) == fs.take(i as int),
            text_views(labels@) == fs.take(i as int).map_values(|f: FormatView| audio_label(f)),
        decreases count - i,
    {
        let f = &audio[i];
        let ghost shown_before = format_views(shown@);
        let ghost labels_before = text_views(labels@);
        let label = audio_label_of(f);
        let c = f.clone();
        shown.push(c);
        labels.push(label);
        proof {
            assert(fs[i as int] == f@);
            assert(format_views(shown@) == shown_before.push(f@));
            assert(text_views(labels@) == labels_before.push(audio_label(f@)));
            assert(fs.take(i + 1) == fs.take(i as int).push(f@));
            assert(fs.take(i + 1).map_values(|f: FormatView| audio_label(f)) == fs.take(
                i as int,
            ).map_values(|f: FormatView| audio_label(f)).push(audio_label(f@)));
        }
        i += 1;
    }
    let ghost listed = text_views(labels@);
    labels.push(String::from_str("Best audio (automatic selection)"));
    assert(text_views(labels@) == listed.push(best_audio_label()));
    labels.push(String::from_str("Custom format (enter format ID directly)"));
    assert(text_views(labels@) == listed.push(best_audio_label()).push(custom_format_label()));
    AudioMenu { shown, labels, default_choice: count, truncated: n > MENU_LIMIT }
}

/// Reads what entry `selected` means on an audio menu that shows `shown`
/// formats.
pub fn audio_choice(shown: usize, selected: usize) -> (r: AudioChoice)
    ensures
        r == audio_choice_of(shown as nat, selected as nat),
{
    if selected < shown {
        AudioChoice::Listed(selected)
    } else if selected == shown {
        AudioChoice::Best
    } else {
        AudioChoice::Custom
    }
}

/// Writes the specification of a video format with its audio format.
pub fn video_format_spec(video_id: &str, audio_id: &str) -> (r: String)
    ensures
        r@ == combined_spec(video_id@, audio_id@),
{
    proof {
        reveal_strlit("+");
    }
    let mut r = String::from_str(video_id);
    r.append("+");
    r.append(audio_id);
    r
}

} // verus!
