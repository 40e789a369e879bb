//! The classifier: it parts the formats of a listing into the audio formats
//! and the video formats grouped by height, and picks the audio format that
//! goes with a video.

use vstd::prelude::*;
use crate::error::DownloadError;
use crate::format::{format_views, FormatOption, FormatView, MediaKind};
use crate::text::{find_from, lemma_find_from, lemma_find_from_is};

verus! {

/// The video formats of one height, in the order of the listing. The formats
/// without a height form a group of their own.
#[derive(Debug, PartialEq, Eq)]
pub struct ResolutionGroup {
    pub resolution: Option<u32>,
    pub formats: Vec<FormatOption>,
}

/// The mathematical value of a `ResolutionGroup`.
pub struct GroupView {
    pub resolution: Option<u32>,
    pub formats: Seq<FormatView>,
}

impl View for ResolutionGroup {
    type V = GroupView;

    open spec fn view(&self) -> GroupView {
        GroupView { resolution: self.resolution, formats: format_views(self.formats@) }
    }
}

/// The values of a sequence of groups, in the same order.
pub open spec fn group_views(groups: Seq<ResolutionGroup>) -> Seq<GroupView> {
    groups.map_values(|g: ResolutionGroup| g@)
}

/// The formats of a listing, parted by kind.
#[derive(Debug, PartialEq, Eq)]
pub struct Classified {
    /// The video formats by height: first those without one, then by rising
    /// height.
    pub video: Vec<ResolutionGroup>,
    /// The audio formats, in the order of the listing.
    pub audio: Vec<FormatOption>,
}

/// The mathematical value of a `Classified`.
pub struct ClassifiedView {
    pub video: Seq<GroupView>,
    pub audio: Seq<FormatView>,
}

impl View for Classified {
    type V = ClassifiedView;

    open spec fn view(&self) -> ClassifiedView {
        ClassifiedView { video: group_views(self.video@), audio: format_views(self.audio@) }
    }
}

/// The test for an audio format.
pub open spec fn is_audio() -> spec_fn(FormatView) -> bool {
    |f: FormatView| f.kind is Audio
}

/// The test for a video format of height `r`.
pub open spec fn is_video_at(r: Option<u32>) -> spec_fn(FormatView) -> bool {
    |f: FormatView| f.kind is Video && f.resolution == r
}

/// The test for a format in the container `m4a`.
pub open spec fn is_m4a() -> spec_fn(FormatView) -> bool {
    |f: FormatView| f.extension == "m4a"@
}

/// The audio formats among `fs`, in their order.
pub open spec fn audio_formats(fs: Seq<FormatView>) -> Seq<FormatView> {
    fs.filter(is_audio())
}

/// The video formats of height `r` among `fs`, in their order.
pub open spec fn video_at(fs: Seq<FormatView>, r: Option<u32>) -> Seq<FormatView> {
    fs.filter(is_video_at(r))
}

/// The order of the groups: no height comes before any height, and a lower
/// height before a higher one.
pub open spec fn precedes(a: Option<u32>, b: Option<u32>) -> bool {
    match (a, b) {
        (None, None) => false,
        (None, Some(_)) => true,
        (Some(_), None) => false,
        (Some(x), Some(y)) => x < y,
    }
}

/// Whether each height comes before the ones behind it.
pub open spec fn is_ascending(keys: Seq<Option<u32>>) -> bool {
    forall|j: int, k: int| 0 <= j < k < keys.len() ==> precedes(keys[j], keys[k])
}

/// Whether `c` is what the classifier makes of the formats `fs`: their audio
/// formats; and for each height that a video format among them has, one
/// group, which holds the video formats of that height. The groups stand in
/// rising order.
pub open spec fn is_partition(fs: Seq<FormatView>, c: ClassifiedView) -> bool {
    &&& c.audio == audio_formats(fs)
    &&& forall|k: int|
        0 <= k < c.video.len() ==> (#[trigger] c.video[k]).formats == video_at(
            fs,
            c.video[k].resolution,
        ) && c.video[k].formats.len() > 0
    &&& forall|j: int, k: int|
        0 <= j < k < c.video.len() ==> precedes(
            (#[trigger] c.video[j]).resolution,
            (#[trigger] c.video[k]).resolution,
        )
    &&& forall|r: Option<u32>| #[trigger]
        video_at(fs, r).len() > 0 ==> exists|k: int|
            0 <= k < c.video.len() && (#[trigger] c.video[k]).resolution == r
}

/// Of two partitions of the same formats that agree before position `i`,
/// the group of the second at `i` does not stand before that of the first.
proof fn lemma_group_bound(fs: Seq<FormatView>, a: ClassifiedView, b: ClassifiedView, i: int)
    requires
        is_partition(fs, a),
        is_partition(fs, b),
        0 <= i < a.video.len(),
        i < b.video.len(),
        forall|j: int| 0 <= j < i ==> (#[trigger] a.video[j]).resolution == b.video[j].resolution,
    ensures
        !precedes(a.video[i].resolution, b.video[i].resolution),
{
    let r = a.video[i].resolution;
    if precedes(r, b.video[i].resolution) {
        assert(video_at(fs, r).len() > 0);
        let k = choose|k: int| 0 <= k < b.video.len() && (#[trigger] b.video[k]).resolution == r;
        if k < i {
            assert(a.video[k].resolution == b.video[k].resolution);
            assert(precedes(a.video[k].resolution, a.video[i].resolution));
        } else if k > i {
            assert(precedes(b.video[i].resolution, b.video[k].resolution));
        }
    }
}

/// Two partitions of the same formats hold groups of the same heights at the
/// positions before `i`.
proof fn lemma_groups_agree(fs: Seq<FormatView>, a: ClassifiedView, b: ClassifiedView, i: int)
    requires
        is_partition(fs, a),
        is_partition(fs, b),
        0 <= i <= a.video.len(),
        i <= b.video.len(),
    ensures
        forall|j: int| 0 <= j < i ==> (#[trigger] a.video[j]).resolution == b.video[j].resolution,
    decreases i,
{
    if i > 0 {
        lemma_groups_agree(fs, a, b, i - 1);
        lemma_groups_agree(fs, b, a, i - 1);
        lemma_group_bound(fs, a, b, i - 1);
        lemma_group_bound(fs, b, a, i - 1);
    }
}

/// Of two partitions of the same formats the second has no more groups than
/// the first.
proof fn lemma_group_count_bound(fs: Seq<FormatView>, a: ClassifiedView, b: ClassifiedView)
    requires
        is_partition(fs, a),
        is_partition(fs, b),
    ensures
        b.video.len() <= a.video.len(),
{
    if a.video.len() < b.video.len() {
        let n = a.video.len() as int;
        lemma_groups_agree(fs, a, b, n);
        let r = b.video[n].resolution;
        assert(video_at(fs, r).len() > 0);
        let k = choose|k: int| 0 <= k < a.video.len() && (#[trigger] a.video[k]).resolution == r;
        assert(a.video[k].resolution == b.video[k].resolution);
        assert(precedes(b.video[k].resolution, b.video[n].resolution));
    }
}

/// The formats decide their partition: two partitions of the same formats
/// are equal.
pub proof fn lemma_partition_unique(fs: Seq<FormatView>, a: ClassifiedView, b: ClassifiedView)
    requires
        is_partition(fs, a),
        is_partition(fs, b),
    ensures
        a == b,
{
    lemma_group_count_bound(fs, a, b);
    lemma_group_count_bound(fs, b, a);
    lemma_groups_agree(fs, a, b, a.video.len() as int);
    assert forall|i: int| 0 <= i < a.video.len() implies a.video[i] == b.video[i] by {
        assert(a.video[i].resolution == b.video[i].resolution);
    }
    assert(a.video =~= b.video);
}

/// The position of the audio format that goes with a video: the first one in
/// the container `m4a`, or the first one of all where none is. None where
/// there is no audio format.
pub open spec fn best_audio_position(audio: Seq<FormatView>) -> Option<int> {
    if audio.len() == 0 {
        None
    } else {
        let k = find_from(audio, is_m4a(), 0);
        if k < audio.len() {
            Some(k)
        } else {
            Some(0)
        }
    }
}

/// Where a list holds a format in the container `m4a`, the position chosen
/// holds one.
pub proof fn lemma_best_audio_prefers_m4a(audio: Seq<FormatView>)
    requires
        exists|i: int| 0 <= i < audio.len() && (#[trigger] audio[i]).extension == "m4a"@,
    ensures
        best_audio_position(audio) matches Some(k) && 0 <= k < audio.len()
            && audio[k].extension == "m4a"@,
{
    lemma_find_from(audio, is_m4a(), 0);
    let k = find_from(audio, is_m4a(), 0);
    let i = choose|i: int| 0 <= i < audio.len() && (#[trigger] audio[i]).extension == "m4a"@;
    if k >= audio.len() {
        assert(!is_m4a()(audio[i]));
    }
}

/// Where `m` is the only format of a list in the container `m4a`, it is the
/// one chosen, wherever in the list it stands.
pub proof fn lemma_best_audio_any_order(audio: Seq<FormatView>, m: FormatView)
    requires
        audio.contains(m),
        m.extension == "m4a"@,
        forall|i: int|
            0 <= i < audio.len() && (#[trigger] audio[i]).extension == "m4a"@ ==> audio[i] == m,
    ensures
        best_audio_position(audio) matches Some(k) && 0 <= k < audio.len() && audio[k] == m,
{
    let i = choose|i: int| 0 <= i < audio.len() && audio[i] == m;
    assert(audio[i].extension == "m4a"@);
    lemma_best_audio_prefers_m4a(audio);
}

/// Tells whether two heights are the same.
fn same_resolution(a: Option<u32>, b: Option<u32>) -> (r: bool)
    ensures
        r == (a == b),
{
    match (a, b) {
        (None, None) => true,
        (Some(x), Some(y)) => x == y,
        _ => false,
    }
}

/// Tells whether the group of `a` stands before the group of `b`.
fn stands_before(a: Option<u32>, b: Option<u32>) -> (r: bool)
    ensures
        r == precedes(a, b),
{
    match (a, b) {
        (None, Some(_)) => true,
        (Some(x), Some(y)) => x < y,
        _ => false,
    }
}

/// The audio formats among `formats`.
fn audio_of(formats: &[FormatOption]) -> (out: Vec<FormatOption>)
    ensures
        format_views(out@) == audio_formats(format_views(formats@)),
{
    let ghost fs = format_views(formats@);
    let n: usize = formats.len();
    let mut out: Vec<FormatOption> = Vec::new();
    let mut i: usize = 0;
    proof {
        reveal(Seq::filter);
        assert(fs.take(0).filter(is_audio()) == Seq::<FormatView>::empty());
    }
    while i < n
        invariant
            n == formats@.len(),
            fs == format_views(formats@),
            i <= n,
            format_views(out@) == fs.take(i as int).filter(is_audio()),
        decreases n - i,
    {
        let f = &formats[i];
        proof {
            assert(fs.take(i + 1) == fs.take(i as int).push(fs[i as int]));
            fs.take(i as int).lemma_filter_push(fs[i as int], is_audio());
        }
        if f.is_audio() {
            let ghost before = format_views(out@);
            let c = f.clone();
            out.push(c);
            assert(format_views(out@) == before.push(c@));
        }
        i += 1;
    }
    assert(fs.take(n as int) == fs);
    out
}

/// The video formats of height `r` among `formats`.
fn video_of(formats: &[FormatOption], r: Option<u32>) -> (out: Vec<FormatOption>)
    ensures
        format_views(out@) == video_at(format_views(formats@), r),
{
    let ghost fs = format_views(formats@);
    let n: usize = formats.len();
    let mut out: Vec<FormatOption> = Vec::new();
    let mut i: usize = 0;
    proof {
        reveal(Seq::filter);
        assert(fs.take(0).filter(is_video_at(r)) == Seq::<FormatView>::empty());
    }
    while i < n
        invariant
            n == formats@.len(),
            fs == format_views(formats@),
            i <= n,
            format_views(out@) == fs.take(i as int).filter(is_video_at(r)),
        decreases n - i,
    {
        let f = &formats[i];
        proof {
            assert(fs.take(i + 1) == fs.take(i as int).push(fs[i as int]));
            fs.take(i as int).lemma_filter_push(fs[i as int], is_video_at(r));
        }
        if f.is_video() && same_resolution(f.resolution, r) {
            let ghost before = format_views(out@);
            let c = f.clone();
            out.push(c);
            assert(format_views(out@) == before.push(c@));
        }
        i += 1;
    }
    assert(fs.take(n as int) == fs);
    out
}

/// Puts `key` in its place among the ascending `keys`, unless it is there.
fn insert_key(keys: &mut Vec<Option<u32>>, key: Option<u32>)
    requires
        is_ascending(old(keys)@),
    ensures
        is_ascending(final(keys)@),
        forall|r: Option<u32>|
            #![trigger final(keys)@.contains(r)]
            #![trigger old(keys)@.contains(r)]
            final(keys)@.contains(r) <==> (r == key || old(keys)@.contains(r)),
{
    let ghost before = keys@;
    let n: usize = keys.len();
    let mut p: usize = 0;
    while p < n && stands_before(keys[p], key)
        invariant
            keys@ == before,
            n == before.len(),
            p <= n,
            forall|j: int| 0 <= j < p ==> precedes(#[trigger] before[j], key),
        decreases n - p,
    {
        p += 1;
    }
    if p < n && same_resolution(keys[p], key) {
        assert(before[p as int] == key);
        return ;
    }
    keys.insert(p, key);
    proof {
        let after = keys@;
        before.insert_ensures(p as int, key);
        assert forall|r: Option<u32>|
            #![trigger after.contains(r)]
            #![trigger before.contains(r)]
            after.contains(r) <==> (r == key || before.contains(r)) by {
            if after.contains(r) && r != key {
                let k = choose|k: int| 0 <= k < after.len() && after[k] == r;
                if k < p {
                    assert(before[k] == r);
                } else {
                    assert(before[k - 1] == r);
                }
            }
            if r == key {
                assert(after[p as int] == key);
            }
            if before.contains(r) {
                let k = choose|k: int| 0 <= k < before.len() && before[k] == r;
                if k < p {
                    assert(after[k] == r);
                } else {
                    assert(after[k + 1] == r);
                }
            }
        }
        assert forall|j: int, k: int| 0 <= j < k < after.len() implies precedes(
            after[j],
            after[k],
        ) by {
            if k < p {
                assert(after[j] == before[j] && after[k] == before[k]);
            } else if k == p {
                assert(after[j] == before[j]);
            } else if j < p {
                assert(after[j] == before[j] && after[k] == before[k - 1]);
            } else if j == p {
                assert(after[k] == before[k - 1]);
                assert(!precedes(before[p as int], key));
                if k - 1 > p {
                    assert(precedes(before[p as int], before[k - 1]));
                }
            } else {
                assert(after[j] == before[j - 1] && after[k] == before[k - 1]);
            }
        }
    }
}

/// The heights of the video formats among `formats`, each once, in the order
/// of the groups.
fn video_keys(formats: &[FormatOption]) -> (keys: Vec<Option<u32>>)
    ensures
        is_ascending(keys@),
        forall|r: Option<u32>|
            #![trigger keys@.contains(r)]
            #![trigger video_at(format_views(formats@), r)]
            keys@.contains(r) <==> video_at(format_views(formats@), r).len() > 0,
{
    let ghost fs = format_views(formats@);
    let n: usize = formats.len();
    let mut keys: Vec<Option<u32>> = Vec::new();
    let mut i: usize = 0;
    proof {
        reveal(Seq::filter);
        assert forall|r: Option<u32>| video_at(fs.take(0), r).len() == 0 by {}
    }
    while i < n
        invariant
            n == formats@.len(),
            fs == format_views(formats@),
            i <= n,
            is_ascending(keys@),
            forall|r: Option<u32>|
                #![trigger keys@.contains(r)]
                #![trigger video_at(fs.take(i as int), r)]
                keys@.contains(r) <==> video_at(fs.take(i as int), r).len() > 0,
        decreases n - i,
    {
        let f = &formats[i];
        let ghost before = keys@;
        if f.is_video() {
            insert_key(&mut keys, f.resolution);
        }
        proof {
            let e = fs[i as int];
            assert(fs.take(i + 1) == fs.take(i as int).push(e));
            assert forall|r: Option<u32>|
                #![trigger keys@.contains(r)]
                #![trigger video_at(fs.take(i + 1), r)]
                keys@.contains(r) <==> video_at(fs.take(i + 1), r).len() > 0 by {
                fs.take(i as int).lemma_filter_push(e, is_video_at(r));
                assert(before.contains(r) <==> video_at(fs.take(i as int), r).len() > 0);
            }
        }
        i += 1;
    }
    assert(fs.take(n as int) == fs);
    keys
}

/// Parts `formats` into the audio formats and the video formats by height.
///
/// Nothing is dropped: a video format without a height stands in the group
/// of its own that comes first. Within the audio formats and within each
/// group the order of the listing is kept.
pub fn classify(formats: &[FormatOption]) -> (c: Classified)
    ensures
        is_partition(format_views(formats@), c@),
{
    let ghost fs = format_views(formats@);
    let audio = audio_of(formats);
    let keys = video_keys(formats);
    let count: usize = keys.len();
    let mut video: Vec<ResolutionGroup> = Vec::new();
    let mut k: usize = 0;
    while k < count
        invariant
            fs == format_views(formats@),
            count == keys@.len(),
            k <= count,
            video@.len() == k,
            forall|j: int|
                0 <= j < k ==> (#[trigger] video@[j])@.resolution == keys@[j] && video@[j]@.formats
                    == video_at(fs, keys@[j]),
        decreases count - k,
    {
        let group = ResolutionGroup { resolution: keys[k], formats: video_of(formats, keys[k]) };
        video.push(group);
        k += 1;
    }
    let c = Classified { video, audio };
    proof {
        let groups = c@.video;
        assert forall|j: int| 0 <= j < groups.len() implies (#[trigger] groups[j]).formats
            == video_at(fs, groups[j].resolution) && groups[j].formats.len() > 0 by {
            assert(groups[j] == c.video@[j]@);
            assert(keys@.contains(keys@[j]));
        }
        assert forall|i: int, j: int| 0 <= i < j < groups.len() implies precedes(
            (#[trigger] groups[i]).resolution,
            (#[trigger] groups[j]).resolution,
        ) by {
            assert(groups[i] == c.video@[i]@);
            assert(groups[j] == c.video@[j]@);
        }
        assert forall|r: Option<u32>| #[trigger] video_at(fs, r).len() > 0 implies exists|j: int|
            0 <= j < groups.len() && (#[trigger] groups[j]).resolution == r by {
            assert(keys@.contains(r));
            let j = choose|j: int| 0 <= j < keys@.len() && keys@[j] == r;
            assert(groups[j] == c.video@[j]@);
        }
    }
    c
}

/// Picks the audio format that goes with a video: the first of `audio` in the
/// container `m4a`, which the video's container takes best, or else the
/// first of all. An empty list is an error, and the only one.
pub fn best_audio<'a>(audio: &'a [FormatOption]) -> (r: Result<&'a FormatOption, DownloadError>)
    ensures
        r is Err <==> audio@.len() == 0,
        r matches Err(e) ==> e == DownloadError::NoCompatibleFormat(MediaKind::Audio),
        r matches Ok(f) ==> best_audio_position(format_views(audio@)) matches Some(k) && 0 <= k
            < audio@.len() && *f == audio@[k],
{
    let ghost fs = format_views(audio@);
    let n: usize = audio.len();
    if n == 0 {
        return Err(DownloadError::NoCompatibleFormat(MediaKind::Audio));
    }
    let m4a = String::from_str("m4a");
    let mut k: usize = 0;
    while k < n
        invariant
            n == audio@.len(),
            fs == format_views(audio@),
            m4a@ == "m4a"@,
            k <= n,
            forall|j: int| 0 <= j < k ==> !is_m4a()(#[trigger] fs[j]),
        decreases n - k,
    {
        if audio[k].extension == m4a {
            proof {
                assert(is_m4a()(fs[k as int]));
                lemma_find_from_is(fs, is_m4a(), 0, k as int);
            }
            return Ok(&audio[k]);
        }
        k += 1;
    }
    proof {
        lemma_find_from_is(fs, is_m4a(), 0, n as int);
    }
    Ok(&audio[0])
}

} // verus!
