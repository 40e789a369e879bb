//! Format descriptors and the parser that reads them from the lines of a
//! format listing.
//!
//! A listing line is a row of words separated by whitespace: the format's
//! identifier, its container extension, then free text that may hold a
//! resolution (`1920x1080`), the marker `audio only` and a size (`100.5 MiB`).

use vstd::prelude::*;
use vstd::slice::slice_subrange;
use crate::text::{
    all_digits, chars_of, contains, contains_text, find_char, find_from, is_digit, join,
    lemma_find_from, lemma_find_from_is, lemma_tokens_push_space, occurs_at, parse_decimal,
    parse_u32, span_text, span_texts, starts_with, token_spans, tokens, Span,
};

verus! {

/// What a format carries: a picture, or sound alone.
#[derive(Clone, Copy, Debug, PartialEq, Eq, Structural)]
pub enum MediaKind {
    Video,
    Audio,
}

/// One selectable stream, as one line of the listing describes it.
#[derive(Debug, PartialEq, Eq)]
pub struct FormatOption {
    /// The token by which the downloader knows the format.
    pub id: String,
    /// What the line says after the extension, without the size.
    pub format_description: String,
    /// The picture's height in pixels, where the line gives one.
    pub resolution: Option<u32>,
    /// Video, unless the line holds the marker `audio only`.
    pub kind: MediaKind,
    /// The container extension.
    pub extension: String,
    /// The size with its unit, where the line gives one.
    pub filesize: Option<String>,
}

/// The mathematical value of a `FormatOption`.
pub struct FormatView {
    pub id: Seq<char>,
    pub description: Seq<char>,
    pub resolution: Option<u32>,
    pub kind: MediaKind,
    pub extension: Seq<char>,
    pub filesize: Option<Seq<char>>,
}

impl View for FormatOption {
    type V = FormatView;

    open spec fn view(&self) -> FormatView {
        FormatView {
            id: self.id@,
            description: self.format_description@,
            resolution: self.resolution,
            kind: self.kind,
            extension: self.extension@,
            filesize: match self.filesize {
                Some(size) => Some(size@),
                None => None,
            },
        }
    }
}

/// The values of a sequence of formats, in the same order.
pub open spec fn format_views(formats: Seq<FormatOption>) -> Seq<FormatView> {
    formats.map_values(|f: FormatOption| f@)
}

/// The value of a format that may be absent.
pub open spec fn option_view(format: Option<FormatOption>) -> Option<FormatView> {
    match format {
        Some(f) => Some(f@),
        None => None,
    }
}

/// The marker by which a line declares a format to be sound alone.
pub open spec fn audio_marker() -> Seq<char> {
    "audio only"@
}

/// Whether the word holds the separator of a resolution.
pub open spec fn has_x(w: Seq<char>) -> bool {
    w.contains('x')
}

/// What stands in `w` behind its first `x`, up to the next `x` or the end.
pub open spec fn height_text(w: Seq<char>) -> Seq<char> {
    let first = find_from(w, |c: char| c == 'x', 0);
    let next = find_from(w, |c: char| c == 'x', first + 1);
    w.subrange(first + 1, next)
}

/// The height that the words give: the first word with an `x` decides, and
/// gives a height if a number stands behind that `x`.
pub open spec fn resolution_of(words: Seq<Seq<char>>) -> Option<u32> {
    let k = find_from(words, |w: Seq<char>| has_x(w), 0);
    if k < words.len() {
        parse_u32(height_text(words[k]))
    } else {
        None
    }
}

/// Audio for a line that holds the marker `audio only` anywhere, else video.
pub open spec fn kind_of(line: Seq<char>) -> MediaKind {
    if contains_text(line, audio_marker()) {
        MediaKind::Audio
    } else {
        MediaKind::Video
    }
}

/// Whether the word is one of the size units.
pub open spec fn is_unit(w: Seq<char>) -> bool {
    w == "MiB"@ || w == "KiB"@ || w == "GiB"@
}

/// The position of the first unit among the words, or their number where
/// there is none.
pub open spec fn unit_position(words: Seq<Seq<char>>) -> int {
    find_from(words, |w: Seq<char>| is_unit(w), 0)
}

/// The word before a unit without the marks of an approximate size: the
/// tildes that it begins with, then the signs `\u{2248}` that follow them.
pub open spec fn size_value(w: Seq<char>) -> Seq<char> {
    let rest = w.skip(find_from(w, |c: char| c != '~', 0));
    rest.skip(find_from(rest, |c: char| c != '\u{2248}', 0))
}

/// Whether `w` writes a number: ASCII digits with at most one point among
/// them, and one digit at least.
pub open spec fn is_numeric(w: Seq<char>) -> bool {
    let point = find_from(w, |c: char| c == '.', 0);
    if point < w.len() {
        &&& all_digits(w.take(point))
        &&& all_digits(w.skip(point + 1))
        &&& w.len() > 1
    } else {
        all_digits(w) && w.len() > 0
    }
}

/// The size that the words give: the number before the first unit, a space,
/// and the unit. Without a unit, or without a number before it, no size.
pub open spec fn filesize_of(words: Seq<Seq<char>>) -> Option<Seq<char>> {
    let u = unit_position(words);
    if 0 < u < words.len() && is_numeric(size_value(words[u - 1])) {
        Some(size_value(words[u - 1]) + seq![' '] + words[u])
    } else {
        None
    }
}

/// The description that the words give: with a unit among them, the words
/// from the third up to the one before the size value; without a unit, the
/// words from the third on. The words are joined by single spaces.
pub open spec fn description_of(words: Seq<Seq<char>>) -> Seq<char>
    recommends
        words.len() >= 2,
{
    let u = unit_position(words);
    if u >= words.len() {
        join(words.skip(2))
    } else if u >= 3 {
        join(words.subrange(2, u - 1))
    } else {
        Seq::empty()
    }
}

/// The format that a line describes. A line of fewer than three words
/// describes none.
pub open spec fn parse_line(line: Seq<char>) -> Option<FormatView> {
    let words = tokens(line);
    if words.len() < 3 {
        None
    } else {
        Some(
            FormatView {
                id: words[0],
                description: description_of(words),
                resolution: resolution_of(words),
                kind: kind_of(line),
                extension: words[1],
                filesize: filesize_of(words),
            },
        )
    }
}

/// Whether a listing line is passed over unread: the table's header, which
/// begins with `ID`; a log line, which begins with `[info]`; a line without
/// a word.
pub open spec fn is_skipped(line: Seq<char>) -> bool {
    "ID"@.is_prefix_of(line) || "[info]"@.is_prefix_of(line) || tokens(line).len() == 0
}

/// The format that a listing line contributes, if any.
pub open spec fn listed(line: Seq<char>) -> Option<FormatView> {
    if is_skipped(line) {
        None
    } else {
        parse_line(line)
    }
}

/// The formats of the lines that begin at or after `from`, where a line ends
/// at a line feed or at the end of the text.
pub open spec fn formats_from(text: Seq<char>, from: int) -> Seq<FormatView>
    decreases text.len() - from,
{
    if from < 0 || from > text.len() {
        Seq::empty()
    } else {
        let end = find_from(text, |c: char| c == '\n', from);
        proof {
            lemma_find_from(text, |c: char| c == '\n', from);
        }
        let here = match listed(text.subrange(from, end)) {
            Some(f) => seq![f],
            None => Seq::empty(),
        };
        if end >= text.len() {
            here
        } else {
            here + formats_from(text, end + 1)
        }
    }
}

/// The formats that a listing describes, in the order of its lines.
pub open spec fn listing_formats(text: Seq<char>) -> Seq<FormatView> {
    formats_from(text, 0)
}

/// A carriage return at the end of a line changes nothing of what the line
/// contributes: a listing whose lines end in a carriage return and a line
/// feed reads like one whose lines end in a line feed alone.
pub proof fn lemma_carriage_return_ignored(line: Seq<char>)
    ensures
        listed(line.push('\r')) == listed(line),
{
    let longer = line.push('\r');
    let marker = audio_marker();
    reveal_strlit("ID");
    reveal_strlit("[info]");
    reveal_strlit("audio only");
    lemma_tokens_push_space(line, '\r', 0);
    assert("ID"@.is_prefix_of(longer) <==> "ID"@.is_prefix_of(line)) by {
        if line.len() >= 2 {
            assert(longer.subrange(0, 2) == line.subrange(0, 2));
        } else if "ID"@.is_prefix_of(longer) {
            assert(longer.subrange(0, 2)[1] == '\r');
        }
    }
    assert("[info]"@.is_prefix_of(longer) <==> "[info]"@.is_prefix_of(line)) by {
        if line.len() >= 6 {
            assert(longer.subrange(0, 6) == line.subrange(0, 6));
        } else if "[info]"@.is_prefix_of(longer) {
            assert(longer.subrange(0, 6)[5] == '\r');
        }
    }
    assert(contains_text(longer, marker) <==> contains_text(line, marker)) by {
        if contains_text(longer, marker) {
            let at = choose|at: int| occurs_at(longer, marker, at);
            if at + marker.len() == longer.len() {
                assert(longer.subrange(at, at + marker.len())[9] == '\r');
            }
            assert(line.subrange(at, at + marker.len()) == longer.subrange(at, at + marker.len()));
            assert(occurs_at(line, marker, at));
        }
        if contains_text(line, marker) {
            let at = choose|at: int| occurs_at(line, marker, at);
            assert(longer.subrange(at, at + marker.len()) == line.subrange(at, at + marker.len()));
            assert(occurs_at(longer, marker, at));
        }
    }
}

/// Reading a listing is a function of its text: two readings of one text
/// hold the same formats in the same order.
pub proof fn lemma_listing_repeatable(
    text: Seq<char>,
    first: Seq<FormatOption>,
    second: Seq<FormatOption>,
)
    requires
        format_views(first) == listing_formats(text),
        format_views(second) == listing_formats(text),
    ensures
        first.len() == second.len(),
        forall|i: int| 0 <= i < first.len() ==> (#[trigger] first[i])@ == second[i]@,
{
    assert forall|i: int| 0 <= i < first.len() implies (#[trigger] first[i])@ == second[i]@ by {
        assert(format_views(first)[i] == first[i]@);
        assert(format_views(second)[i] == second[i]@);
    }
}

/// Whether every span lies within a text of `len` characters.
pub(crate) open spec fn spans_within(spans: Seq<Span>, len: nat) -> bool {
    forall|k: int| 0 <= k < spans.len() ==> (#[trigger] spans[k]).start <= spans[k].end <= len
}

/// The text that `span` covers in `line`, as a string.
fn span_string(line: &str, span: Span) -> (r: String)
    requires
        span.start <= span.end <= line@.len(),
    ensures
        r@ == span_text(line@, span),
{
    String::from_str(line.substring_char(span.start, span.end))
}

/// The first position at or after `from` that does not hold `c`.
fn skip_char(chars: &[char], c: char, from: usize) -> (at: usize)
    requires
        from <= chars@.len(),
    ensures
        at == find_from(chars@, |x: char| x != c, from as int),
        from <= at <= chars@.len(),
{
    let n: usize = chars.len();
    let mut i: usize = from;
    while i < n && chars[i] == c
        invariant
            n == chars@.len(),
            from <= i <= n,
            find_from(chars@, |x: char| x != c, from as int) == find_from(
                chars@,
                |x: char| x != c,
                i as int,
            ),
        decreases n - i,
    {
        i += 1;
    }
    i
}

/// Tells whether `chars` holds ASCII digits only.
fn digits_only(chars: &[char]) -> (r: bool)
    ensures
        r == all_digits(chars@),
{
    let n: usize = chars.len();
    let mut i: usize = 0;
    while i < n
        invariant
            n == chars@.len(),
            i <= n,
            forall|j: int| 0 <= j < i ==> is_digit(#[trigger] chars@[j]),
        decreases n - i,
    {
        let c: char = chars[i];
        if !(c >= '0' && c <= '9') {
            assert(!is_digit(chars@[i as int]));
            return false;
        }
        i += 1;
    }
    true
}

/// Tells whether `chars` writes a number.
fn numeric(chars: &[char]) -> (r: bool)
    ensures
        r == is_numeric(chars@),
{
    let n: usize = chars.len();
    let point: usize = find_char(chars, '.', 0);
    if point < n {
        let whole = slice_subrange(chars, 0, point);
        let fraction = slice_subrange(chars, point + 1, n);
        assert(whole@ == chars@.take(point as int));
        assert(fraction@ == chars@.skip(point + 1));
        digits_only(whole) && digits_only(fraction) && n > 1
    } else {
        digits_only(chars) && n > 0
    }
}

/// Tells whether `w` is one of the size units.
fn unit_word(w: &[char]) -> (r: bool)
    ensures
        r == is_unit(w@),
{
    proof {
        reveal_strlit("MiB");
        reveal_strlit("KiB");
        reveal_strlit("GiB");
    }
    if w.len() != 3 {
        return false;
    }
    let r = (w[0] == 'M' || w[0] == 'K' || w[0] == 'G') && w[1] == 'i' && w[2] == 'B';
    proof {
        if r {
            if w[0] == 'M' {
                assert(w@ =~= "MiB"@);
            } else if w[0] == 'K' {
                assert(w@ =~= "KiB"@);
            } else {
                assert(w@ =~= "GiB"@);
            }
        } else {
            assert("MiB"@[0] == 'M' && "MiB"@[1] == 'i' && "MiB"@[2] == 'B');
            assert("KiB"@[0] == 'K' && "KiB"@[1] == 'i' && "KiB"@[2] == 'B');
            assert("GiB"@[0] == 'G' && "GiB"@[1] == 'i' && "GiB"@[2] == 'B');
        }
    }
    r
}

/// The height that the words of `chars` give.
fn find_resolution(chars: &[char], spans: &Vec<Span>) -> (r: Option<u32>)
    requires
        spans_within(spans@, chars@.len()),
    ensures
        r == resolution_of(span_texts(chars@, spans@)),
{
    let ghost words = span_texts(chars@, spans@);
    let count: usize = spans.len();
    let mut k: usize = 0;
    while k < count
        invariant
            count == spans@.len(),
            words == span_texts(chars@, spans@),
            spans_within(spans@, chars@.len()),
            k <= count,
            forall|j: int| 0 <= j < k ==> !has_x(#[trigger] words[j]),
        decreases count - k,
    {
        let span: Span = spans[k];
        let w = slice_subrange(chars, span.start, span.end);
        assert(w@ == words[k as int]);
        let first: usize = find_char(w, 'x', 0);
        proof {
            lemma_find_from(w@, |c: char| c == 'x', 0);
        }
        if first < w.len() {
            let next: usize = find_char(w, 'x', first + 1);
            let height = slice_subrange(w, first + 1, next);
            proof {
                assert(w@[first as int] == 'x');
                assert(has_x(words[k as int]));
                lemma_find_from_is(words, |w: Seq<char>| has_x(w), 0, k as int);
            }
            return parse_decimal(height);
        }
        proof {
            assert forall|i: int| 0 <= i < w@.len() implies w@[i] != 'x' by {}
        }
        k += 1;
    }
    proof {
        lemma_find_from_is(words, |w: Seq<char>| has_x(w), 0, count as int);
    }
    None
}

/// The position of the first unit among the words of `chars`.
fn find_unit(chars: &[char], spans: &Vec<Span>) -> (u: usize)
    requires
        spans_within(spans@, chars@.len()),
    ensures
        u == unit_position(span_texts(chars@, spans@)),
        u <= spans@.len(),
{
    let ghost words = span_texts(chars@, spans@);
    let count: usize = spans.len();
    let mut k: usize = 0;
    while k < count
        invariant
            count == spans@.len(),
            words == span_texts(chars@, spans@),
            spans_within(spans@, chars@.len()),
            k <= count,
            forall|j: int| 0 <= j < k ==> !is_unit(#[trigger] words[j]),
        decreases count - k,
    {
        let span: Span = spans[k];
        let w = slice_subrange(chars, span.start, span.end);
        assert(w@ == words[k as int]);
        if unit_word(w) {
            proof {
                lemma_find_from_is(words, |w: Seq<char>| is_unit(w), 0, k as int);
            }
            return k;
        }
        k += 1;
    }
    proof {
        lemma_find_from_is(words, |w: Seq<char>| is_unit(w), 0, count as int);
    }
    count
}

/// The span of the size value within the word that `span` covers.
fn size_span(chars: &[char], span: Span) -> (r: Span)
    requires
        span.start <= span.end <= chars@.len(),
    ensures
        span.start <= r.start <= r.end == span.end,
        span_text(chars@, r) == size_value(span_text(chars@, span)),
{
    let w = slice_subrange(chars, span.start, span.end);
    let tildes: usize = skip_char(w, '~', 0);
    let rest = slice_subrange(w, tildes, w.len());
    let signs: usize = skip_char(rest, '\u{2248}', 0);
    let r = Span { start: span.start + tildes + signs, end: span.end };
    proof {
        assert(rest@ == w@.skip(tildes as int));
        assert(rest@.skip(signs as int) == span_text(chars@, r));
    }
    r
}

/// The words of `line` from `from` up to `to`, joined by single spaces.
fn join_words(line: &str, spans: &Vec<Span>, from: usize, to: usize) -> (r: String)
    requires
        spans_within(spans@, line@.len()),
        from <= to <= spans@.len(),
    ensures
        r@ == join(span_texts(line@, spans@).subrange(from as int, to as int)),
{
    let ghost words = span_texts(line@, spans@);
    let mut r = String::new();
    let mut k: usize = from;
    while k < to
        invariant
            words == span_texts(line@, spans@),
            spans_within(spans@, line@.len()),
            from <= k <= to <= spans@.len(),
            r@ == join(words.subrange(from as int, k as int)),
        decreases to - k,
    {
        let span: Span = spans[k];
        let ghost before = words.subrange(from as int, k as int);
        let ghost after = words.subrange(from as int, k + 1);
        proof {
            reveal_strlit(" ");
            assert(after.drop_last() == before);
            assert(after.last() == span_text(line@, span));
        }
        if k > from {
            r.append(" ");
            assert(r@ == join(before) + seq![' ']);
        } else {
            assert(r@ + span_text(line@, span) == span_text(line@, span));
        }
        r.append(line.substring_char(span.start, span.end));
        k += 1;
    }
    r
}

impl FormatOption {
    /// Reads one line of the listing.
    ///
    /// A line of three words or more always gives a format: its first word is
    /// the identifier, its second the extension. A line of fewer gives none.
    pub fn parse_format_line(line: &str) -> (r: Option<FormatOption>)
        ensures
            option_view(r) == parse_line(line@),
            r is Some <==> tokens(line@).len() >= 3,
            r matches Some(f) ==> f.id@ == tokens(line@)[0] && f.extension@ == tokens(line@)[1],
            r matches Some(f) ==> (f.kind is Audio <==> contains_text(line@, audio_marker())),
    {
        let chars = chars_of(line);
        let spans = token_spans(chars.as_slice());
        let ghost words = tokens(line@);
        if spans.len() < 3 {
            return None;
        }
        assert(spans_within(spans@, line@.len()));
        assert(words[0] == span_text(line@, spans[0]));
        assert(words[1] == span_text(line@, spans[1]));
        let id = span_string(line, spans[0]);
        let extension = span_string(line, spans[1]);
        let resolution = find_resolution(chars.as_slice(), &spans);
        let marker = chars_of("audio only");
        let kind = if contains(chars.as_slice(), marker.as_slice()) {
            MediaKind::Audio
        } else {
            MediaKind::Video
        };
        let count: usize = spans.len();
        let unit: usize = find_unit(chars.as_slice(), &spans);
        let mut filesize: Option<String> = None;
        if 0 < unit && unit < count {
            assert(words[unit - 1] == span_text(line@, spans[unit - 1]));
            assert(words[unit as int] == span_text(line@, spans[unit as int]));
            let value: Span = size_span(chars.as_slice(), spans[unit - 1]);
            if numeric(slice_subrange(chars.as_slice(), value.start, value.end)) {
                proof {
                    reveal_strlit(" ");
                }
                let mut size = span_string(line, value);
                size.append(" ");
                size.append(line.substring_char(spans[unit].start, spans[unit].end));
                filesize = Some(size);
            }
        }
        let format_description = if unit >= count {
            assert(words.skip(2) == words.subrange(2, count as int));
            join_words(line, &spans, 2, count)
        } else if unit >= 3 {
            join_words(line, &spans, 2, unit - 1)
        } else {
            String::new()
        };
        let r = FormatOption { id, format_description, resolution, kind, extension, filesize };
        assert(r@.filesize == filesize_of(words));
        Some(r)
    }

    /// Tells whether the format carries a picture.
    pub fn is_video(&self) -> (r: bool)
        ensures
            r == (self.kind is Video),
    {
        match self.kind {
            MediaKind::Video => true,
            MediaKind::Audio => false,
        }
    }

    /// Tells whether the format carries sound alone.
    pub fn is_audio(&self) -> (r: bool)
        ensures
            r == (self.kind is Audio),
    {
        match self.kind {
            MediaKind::Video => false,
            MediaKind::Audio => true,
        }
    }
}

impl Clone for FormatOption {
    fn clone(&self) -> (r: Self)
        ensures
            r == *self,
    {
        FormatOption {
            id: self.id.clone(),
            format_description: self.format_description.clone(),
            resolution: self.resolution,
            kind: self.kind,
            extension: self.extension.clone(),
            filesize: match &self.filesize {
                Some(size) => Some(size.clone()),
                None => None,
            },
        }
    }
}

/// Reads a whole listing: every line that is not passed over and that
/// describes a format gives one, in the order of the lines. A line that
/// describes none is dropped, and the lines after it are still read.
pub fn parse_available_formats(formats_str: &str) -> (formats: Vec<FormatOption>)
    ensures
        format_views(formats@) == listing_formats(formats_str@),
{
    let chars = chars_of(formats_str);
    let header = chars_of("ID");
    let info = chars_of("[info]");
    let ghost text = formats_str@;
    let n: usize = chars.len();
    let mut formats: Vec<FormatOption> = Vec::new();
    let mut from: usize = 0;
    assert(format_views(formats@) + formats_from(text, 0) == formats_from(text, 0));
    loop
        invariant
            text == formats_str@,
            text == chars@,
            n == text.len(),
            header@ == "ID"@,
            info@ == "[info]"@,
            from <= n,
            listing_formats(text) == format_views(formats@) + formats_from(text, from as int),
        decreases n - from,
    {
        let end: usize = find_char(chars.as_slice(), '\n', from);
        let line_chars = slice_subrange(chars.as_slice(), from, end);
        let ghost line = text.subrange(from as int, end as int);
        let ghost before = format_views(formats@);
        if !starts_with(line_chars, header.as_slice()) && !starts_with(
            line_chars,
            info.as_slice(),
        ) {
            match FormatOption::parse_format_line(formats_str.substring_char(from, end)) {
                Some(f) => {
                    assert(listed(line) == Some(f@));
                    formats.push(f);
                    assert(format_views(formats@) == before.push(f@));
                },
                None => {
                    assert(listed(line) is None);
                },
            }
        } else {
            assert(listed(line) is None);
        }
        let ghost here = match listed(line) {
            Some(f) => seq![f],
            None => Seq::empty(),
        };
        assert(format_views(formats@) == before + here);
        if end >= n {
            assert(formats_from(text, from as int) == here);
            return formats;
        }
        assert(formats_from(text, from as int) == here + formats_from(text, end + 1));
        assert(before + (here + formats_from(text, end + 1)) == (before + here) + formats_from(
            text,
            end + 1,
        ));
        from = end + 1;
    }
}

} // verus!
