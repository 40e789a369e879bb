//! Text on sequences of characters: whitespace, tokens, substrings and
//! decimal numbers.
//!
//! The executable functions work on slices of `char`; each one is specified
//! against a spec function on `Seq<char>`.

use vstd::prelude::*;
use vstd::slice::slice_subrange;

verus! {

/// Whether `c` has the Unicode property `White_Space`.
pub open spec fn is_space(c: char) -> bool {
    let n = c as u32;
    ||| 0x09 <= n <= 0x0D
    ||| n == 0x20
    ||| n == 0x85
    ||| n == 0xA0
    ||| n == 0x1680
    ||| 0x2000 <= n <= 0x200A
    ||| n == 0x2028
    ||| n == 0x2029
    ||| n == 0x202F
    ||| n == 0x205F
    ||| n == 0x3000
}

/// Whether `c` is one of the ten ASCII digits.
pub open spec fn is_digit(c: char) -> bool {
    '0' <= c && c <= '9'
}

/// The number that the ASCII digit `c` stands for.
pub open spec fn digit_value(c: char) -> nat
    recommends
        is_digit(c),
{
    (c as u32 - 0x30) as nat
}

/// The ASCII digit that stands for `d`, for `d` below ten.
pub open spec fn digit_char(d: nat) -> char
    recommends
        d < 10,
{
    if d == 0 {
        '0'
    } else if d == 1 {
        '1'
    } else if d == 2 {
        '2'
    } else if d == 3 {
        '3'
    } else if d == 4 {
        '4'
    } else if d == 5 {
        '5'
    } else if d == 6 {
        '6'
    } else if d == 7 {
        '7'
    } else if d == 8 {
        '8'
    } else {
        '9'
    }
}

/// The least index at or after `from` whose element satisfies `stop`, or
/// `s.len()` where no element from `from` on does.
pub open spec fn find_from<T>(s: Seq<T>, stop: spec_fn(T) -> bool, from: int) -> int
    decreases s.len() - from,
{
    if 0 <= from < s.len() && !stop(s[from]) {
        find_from(s, stop, from + 1)
    } else {
        from
    }
}

/// `find_from` stays within the sequence, passes only elements that do not
/// satisfy `stop`, and ends on one that does unless it reaches the end.
pub proof fn lemma_find_from<T>(s: Seq<T>, stop: spec_fn(T) -> bool, from: int)
    requires
        0 <= from <= s.len(),
    ensures
        from <= find_from(s, stop, from) <= s.len(),
        forall|j: int| from <= j < find_from(s, stop, from) ==> !stop(#[trigger] s[j]),
        find_from(s, stop, from) < s.len() ==> stop(s[find_from(s, stop, from)]),
    decreases s.len() - from,
{
    if from < s.len() && !stop(s[from]) {
        lemma_find_from(s, stop, from + 1);
    }
}

/// An index with the properties of `lemma_find_from` is the one that
/// `find_from` gives.
pub proof fn lemma_find_from_is<T>(s: Seq<T>, stop: spec_fn(T) -> bool, from: int, at: int)
    requires
        0 <= from <= at <= s.len(),
        forall|j: int| from <= j < at ==> !stop(#[trigger] s[j]),
        at < s.len() ==> stop(s[at]),
    ensures
        find_from(s, stop, from) == at,
    decreases at - from,
{
    if from < at {
        lemma_find_from_is(s, stop, from + 1, at);
    }
}

/// The maximal runs of characters other than whitespace that begin at or
/// after `from`, in order.
pub open spec fn tokens_from(s: Seq<char>, from: int) -> Seq<Seq<char>>
    decreases s.len() - from,
{
    if from < 0 || from >= s.len() {
        Seq::empty()
    } else if is_space(s[from]) {
        tokens_from(s, from + 1)
    } else {
        let end = find_from(s, |c: char| is_space(c), from);
        proof {
            lemma_find_from(s, |c: char| is_space(c), from + 1);
        }
        seq![s.subrange(from, end)] + tokens_from(s, end)
    }
}

/// An element that satisfies `stop`, put behind the sequence, changes nothing
/// of what `find_from` gives.
pub proof fn lemma_find_from_push<T>(s: Seq<T>, stop: spec_fn(T) -> bool, last: T, from: int)
    requires
        0 <= from <= s.len(),
        stop(last),
    ensures
        find_from(s.push(last), stop, from) == find_from(s, stop, from),
    decreases s.len() - from,
{
    if from < s.len() {
        assert(s.push(last)[from] == s[from]);
        if !stop(s[from]) {
            lemma_find_from_push(s, stop, last, from + 1);
        }
    } else {
        assert(s.push(last)[from] == last);
    }
}

/// Whitespace behind a text adds no word to it.
pub proof fn lemma_tokens_push_space(s: Seq<char>, c: char, from: int)
    requires
        is_space(c),
        0 <= from <= s.len(),
    ensures
        tokens_from(s.push(c), from) == tokens_from(s, from),
    decreases s.len() - from,
{
    let longer = s.push(c);
    if from == s.len() {
        assert(longer[from] == c);
        assert(tokens_from(longer, from + 1) == Seq::<Seq<char>>::empty());
    } else {
        assert(longer[from] == s[from]);
        if is_space(s[from]) {
            lemma_tokens_push_space(s, c, from + 1);
        } else {
            let end = find_from(s, |c: char| is_space(c), from);
            lemma_find_from(s, |c: char| is_space(c), from + 1);
            lemma_find_from_push(s, |c: char| is_space(c), c, from);
            assert(longer.subrange(from, end) == s.subrange(from, end));
            lemma_tokens_push_space(s, c, end);
        }
    }
}

/// Every word holds a character, and none that is whitespace.
pub proof fn lemma_tokens_are_words(s: Seq<char>, from: int)
    requires
        0 <= from <= s.len(),
    ensures
        forall|k: int|
            0 <= k < tokens_from(s, from).len() ==> (#[trigger] tokens_from(s, from)[k]).len() > 0,
        forall|k: int, i: int|
            0 <= k < tokens_from(s, from).len() && 0 <= i < tokens_from(s, from)[k].len()
                ==> !is_space(#[trigger] tokens_from(s, from)[k][i]),
    decreases s.len() - from,
{
    let all = tokens_from(s, from);
    if from >= s.len() {
        assert(all.len() == 0);
    } else {
        if is_space(s[from]) {
            lemma_tokens_are_words(s, from + 1);
            assert(all == tokens_from(s, from + 1));
        } else {
            let end = find_from(s, |c: char| is_space(c), from);
            lemma_find_from(s, |c: char| is_space(c), from);
            lemma_find_from(s, |c: char| is_space(c), from + 1);
            lemma_tokens_are_words(s, end);
            let word = s.subrange(from, end);
            let rest = tokens_from(s, end);
            assert(all == seq![word] + rest);
            assert forall|k: int| 0 <= k < all.len() implies (#[trigger] all[k]).len() > 0 by {
                if k > 0 {
                    assert(all[k] == rest[k - 1]);
                }
            }
            assert forall|k: int, i: int|
                0 <= k < all.len() && 0 <= i < all[k].len() implies !is_space(
                #[trigger] all[k][i],
            ) by {
                if k > 0 {
                    assert(all[k] == rest[k - 1]);
                } else {
                    assert(word[i] == s[from + i]);
                }
            }
        }
    }
}

/// The words of `s`: its maximal runs of characters other than whitespace.
pub open spec fn tokens(s: Seq<char>) -> Seq<Seq<char>> {
    tokens_from(s, 0)
}

/// A range of positions in a text, `start` included and `end` excluded.
#[derive(Clone, Copy)]
pub(crate) struct Span {
    pub(crate) start: usize,
    pub(crate) end: usize,
}

/// The characters of `s` that `span` covers.
pub(crate) open spec fn span_text(s: Seq<char>, span: Span) -> Seq<char> {
    s.subrange(span.start as int, span.end as int)
}

/// The texts that `spans` cover, one for each span.
pub(crate) open spec fn span_texts(s: Seq<char>, spans: Seq<Span>) -> Seq<Seq<char>> {
    Seq::new(spans.len(), |k: int| span_text(s, spans[k]))
}

/// The views of a sequence of strings, in the same order.
pub open spec fn text_views(strings: Seq<String>) -> Seq<Seq<char>> {
    strings.map_values(|s: String| s@)
}

/// Whether `pat` stands in `s` at position `at`.
pub open spec fn occurs_at(s: Seq<char>, pat: Seq<char>, at: int) -> bool {
    &&& 0 <= at
    &&& at + pat.len() <= s.len()
    &&& s.subrange(at, at + pat.len()) == pat
}

/// Whether `pat` stands somewhere in `s`.
pub open spec fn contains_text(s: Seq<char>, pat: Seq<char>) -> bool {
    exists|at: int| occurs_at(s, pat, at)
}

/// The parts written one after the other with a single space between
/// neighbours.
pub open spec fn join(parts: Seq<Seq<char>>) -> Seq<char>
    decreases parts.len(),
{
    if parts.len() == 0 {
        Seq::empty()
    } else if parts.len() == 1 {
        parts[0]
    } else {
        join(parts.drop_last()) + seq![' '] + parts.last()
    }
}

/// Whether every character of `d` is an ASCII digit.
pub open spec fn all_digits(d: Seq<char>) -> bool {
    forall|i: int| 0 <= i < d.len() ==> is_digit(#[trigger] d[i])
}

/// The number that the digits `d` write in base ten; 0 for no digits.
pub open spec fn decimal_value(d: Seq<char>) -> nat
    decreases d.len(),
{
    if d.len() == 0 {
        0
    } else {
        decimal_value(d.drop_last()) * 10 + digit_value(d.last())
    }
}

/// The digits of `s` once a leading `+` that something follows is set aside.
pub open spec fn unsigned_digits(s: Seq<char>) -> Seq<char> {
    if s.len() >= 2 && s[0] == '+' {
        s.skip(1)
    } else {
        s
    }
}

/// The 32-bit number that `s` writes: an optional `+`, then one or more ASCII
/// digits whose value is at most `u32::MAX`. Anything else is no number.
pub open spec fn parse_u32(s: Seq<char>) -> Option<u32> {
    let d = unsigned_digits(s);
    if d.len() > 0 && all_digits(d) && decimal_value(d) <= u32::MAX {
        Some(decimal_value(d) as u32)
    } else {
        None
    }
}

/// `n` written in base ten without leading zeros.
pub open spec fn decimal_digits(n: nat) -> Seq<char>
    decreases n,
{
    if n < 10 {
        seq![digit_char(n)]
    } else {
        decimal_digits(n / 10).push(digit_char(n % 10))
    }
}

/// A prefix of a digit string writes a number no larger than the whole.
pub proof fn lemma_decimal_prefix(d: Seq<char>, k: int)
    requires
        0 <= k <= d.len(),
    ensures
        decimal_value(d.take(k)) <= decimal_value(d),
    decreases d.len(),
{
    if k == d.len() {
        assert(d.take(k) == d);
    } else {
        lemma_decimal_prefix(d.drop_last(), k);
        assert(d.drop_last().take(k) == d.take(k));
    }
}

/// Tells whether `c` is whitespace.
pub fn is_whitespace(c: char) -> (r: bool)
    ensures
        r == is_space(c),
{
    let n: u32 = c as u32;
    (0x09 <= n && n <= 0x0D) || n == 0x20 || n == 0x85 || n == 0xA0 || n == 0x1680 || (0x2000 <= n
        && n <= 0x200A) || n == 0x2028 || n == 0x2029 || n == 0x202F || n == 0x205F || n == 0x3000
}

/// The characters of `s`, in order.
pub fn chars_of(s: &str) -> (chars: Vec<char>)
    ensures
        chars@ == s@,
{
    let mut chars: Vec<char> = Vec::new();
    for c in it: s.chars()
        invariant
            it.seq() == s@,
            chars@ == it.seq().take(it.index() as int),
    {
        chars.push(c);
    }
    chars
}

/// The first position at or after `from` that holds `c`, or the length of
/// `chars` where there is none.
pub fn find_char(chars: &[char], c: char, from: usize) -> (at: usize)
    requires
        from <= chars@.len(),
    ensures
        at == find_from(chars@, |x: char| x == c, from as int),
        from <= at <= chars@.len(),
{
    let n: usize = chars.len();
    let mut i: usize = from;
    while i < n && chars[i] != c
        invariant
            n == chars@.len(),
            from <= i <= n,
            find_from(chars@, |x: char| x == c, from as int) == find_from(
                chars@,
                |x: char| x == c,
                i as int,
            ),
        decreases n - i,
    {
        i += 1;
    }
    proof {
        at_end(chars@, |x: char| x == c, i as int);
    }
    i
}

/// Where `find_from` starts on an element that satisfies `stop`, or at the
/// end, it stays.
proof fn at_end<T>(s: Seq<T>, stop: spec_fn(T) -> bool, from: int)
    requires
        0 <= from <= s.len(),
        from < s.len() ==> stop(s[from]),
    ensures
        find_from(s, stop, from) == from,
{
}

/// The words of `chars`, each as the span that it covers.
pub(crate) fn token_spans(chars: &[char]) -> (spans: Vec<Span>)
    ensures
        span_texts(chars@, spans@) == tokens(chars@),
        forall|k: int|
            0 <= k < spans.len() ==> (#[trigger] spans[k]).start < spans[k].end <= chars@.len(),
{
    let n: usize = chars.len();
    let ghost s = chars@;
    let mut spans: Vec<Span> = Vec::new();
    let mut i: usize = 0;
    while i < n
        invariant
            n == s.len(),
            s == chars@,
            i <= n,
            tokens(s) == span_texts(s, spans@) + tokens_from(s, i as int),
            forall|k: int|
                0 <= k < spans.len() ==> (#[trigger] spans[k]).start < spans[k].end <= n,
        decreases n - i,
    {
        if is_whitespace(chars[i]) {
            i += 1;
        } else {
            let start: usize = i;
            while i < n && !is_whitespace(chars[i])
                invariant
                    n == s.len(),
                    s == chars@,
                    start <= i <= n,
                    find_from(s, |c: char| is_space(c), start as int) == find_from(
                        s,
                        |c: char| is_space(c),
                        i as int,
                    ),
                decreases n - i,
            {
                i += 1;
            }
            proof {
                at_end(s, |c: char| is_space(c), i as int);
                let word = Span { start, end: i };
                assert(tokens_from(s, start as int) == seq![span_text(s, word)] + tokens_from(
                    s,
                    i as int,
                ));
                assert(span_texts(s, spans@.push(word)) == span_texts(s, spans@).push(
                    span_text(s, word),
                ));
                assert(span_texts(s, spans@).push(span_text(s, word)) + tokens_from(s, i as int)
                    == span_texts(s, spans@) + (seq![span_text(s, word)] + tokens_from(
                    s,
                    i as int,
                )));
            }
            spans.push(Span { start, end: i });
        }
    }
    assert(span_texts(s, spans@) + Seq::<Seq<char>>::empty() == span_texts(s, spans@));
    spans
}

/// Tells whether `pat` stands in `chars` at position `at`.
pub fn matches_at(chars: &[char], pat: &[char], at: usize) -> (r: bool)
    ensures
        r == occurs_at(chars@, pat@, at as int),
{
    let n: usize = chars.len();
    let m: usize = pat.len();
    if at > n || m > n - at {
        return false;
    }
    let mut k: usize = 0;
    while k < m
        invariant
            n == chars@.len(),
            m == pat@.len(),
            at + m <= n,
            k <= m,
            forall|j: int| 0 <= j < k ==> chars@[at + j] == pat@[j],
        decreases m - k,
    {
        if chars[at + k] != pat[k] {
            assert(chars@.subrange(at as int, at + m)[k as int] == chars@[at + k]);
            return false;
        }
        k += 1;
    }
    assert(chars@.subrange(at as int, at + m) == pat@);
    true
}

/// Tells whether `pat` stands somewhere in `chars`.
pub fn contains(chars: &[char], pat: &[char]) -> (r: bool)
    ensures
        r == contains_text(chars@, pat@),
{
    let n: usize = chars.len();
    let m: usize = pat.len();
    if m > n {
        assert forall|at: int| !occurs_at(chars@, pat@, at) by {}
        return false;
    }
    let last: usize = n - m;
    let mut at: usize = 0;
    loop
        invariant
            n == chars@.len(),
            m == pat@.len(),
            last == n - m,
            at <= last,
            forall|j: int| 0 <= j < at ==> !occurs_at(chars@, pat@, j),
        decreases last - at,
    {
        if matches_at(chars, pat, at) {
            return true;
        }
        if at == last {
            assert forall|j: int| !occurs_at(chars@, pat@, j) by {}
            return false;
        }
        at += 1;
    }
}

/// Tells whether `chars` begins with `pat`.
pub fn starts_with(chars: &[char], pat: &[char]) -> (r: bool)
    ensures
        r == pat@.is_prefix_of(chars@),
{
    let r = matches_at(chars, pat, 0);
    proof {
        if pat@.len() <= chars@.len() {
            assert(chars@.subrange(0, pat@.len() as int) == chars@.take(pat@.len() as int));
            if pat@.is_prefix_of(chars@) {
                assert(chars@.take(pat@.len() as int) == pat@);
            }
        }
    }
    r
}

/// Reads a 32-bit number in base ten.
pub fn parse_decimal(chars: &[char]) -> (r: Option<u32>)
    ensures
        r == parse_u32(chars@),
{
    let n: usize = chars.len();
    let start: usize = if n >= 2 && chars[0] == '+' {
        1
    } else {
        0
    };
    let digits = slice_subrange(chars, start, n);
    let ghost d = digits@;
    assert(d == unsigned_digits(chars@));
    let m: usize = digits.len();
    if m == 0 {
        return None;
    }
    let mut acc: u64 = 0;
    let mut i: usize = 0;
    while i < m
        invariant
            m == d.len(),
            d == digits@,
            d == unsigned_digits(chars@),
            i <= m,
            all_digits(d.take(i as int)),
            acc == decimal_value(d.take(i as int)),
            acc <= u32::MAX,
        decreases m - i,
    {
        let c: char = digits[i];
        if !(c >= '0' && c <= '9') {
            assert(!is_digit(d[i as int]));
            return None;
        }
        let v: u64 = (c as u32 - 0x30) as u64;
        proof {
            let next = d.take(i + 1);
            assert(next.drop_last() == d.take(i as int));
            assert(next.last() == c);
            assert forall|j: int| 0 <= j < next.len() implies is_digit(#[trigger] next[j]) by {
                if j < i {
                    assert(d.take(i as int)[j] == next[j]);
                }
            }
        }
        acc = acc * 10 + v;
        if acc > 0xFFFF_FFFF {
            proof {
                lemma_decimal_prefix(d, i + 1);
            }
            return None;
        }
        i += 1;
    }
    assert(d.take(m as int) == d);
    Some(acc as u32)
}

/// The text of one decimal digit.
fn digit_text(d: u32) -> (r: &'static str)
    requires
        d < 10,
    ensures
        r@ == seq![digit_char(d as nat)],
{
    proof {
        reveal_strlit("0");
        reveal_strlit("1");
        reveal_strlit("2");
        reveal_strlit("3");
        reveal_strlit("4");
        reveal_strlit("5");
        reveal_strlit("6");
        reveal_strlit("7");
        reveal_strlit("8");
        reveal_strlit("9");
    }
    let r: &'static str = if d == 0 {
        "0"
    } else if d == 1 {
        "1"
    } else if d == 2 {
        "2"
    } else if d == 3 {
        "3"
    } else if d == 4 {
        "4"
    } else if d == 5 {
        "5"
    } else if d == 6 {
        "6"
    } else if d == 7 {
        "7"
    } else if d == 8 {
        "8"
    } else {
        "9"
    };
    assert(r@ =~= seq![digit_char(d as nat)]);
    r
}

/// Writes `n` in base ten.
pub fn decimal_string(n: u32) -> (r: String)
    ensures
        r@ == decimal_digits(n as nat),
    decreases n,
{
    if n < 10 {
        String::from_str(digit_text(n))
    } else {
        let mut r = decimal_string(n / 10);
        r.append(digit_text(n % 10));
        assert(r@ == decimal_digits(n as nat / 10).push(digit_char(n as nat % 10)));
        r
    }
}

} // verus!
