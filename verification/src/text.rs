//! Text as sequences of characters: white space, trimming and lines.

use vstd::prelude::*;

verus! {

/// Appends a character to a string: `String::push` of the standard
/// library. The contract claims what its documentation states, that the
/// string afterwards is the string before with the character at its end.
pub assume_specification[ String::push ](s: &mut String, c: char)
    ensures
        final(s)@ == old(s)@.push(c),
;

/// A stretch of a text: the characters from `start` up to `end`.
#[derive(Clone, Copy, Debug, PartialEq, Eq, Structural)]
pub struct Span {
    pub start: usize,
    pub end: usize,
}

/// Whether a character is white space: one of the characters that Unicode
/// gives the property `White_Space`.
pub open spec fn spec_is_whitespace(c: char) -> bool {
    let n = c as u32;
    ||| 0x09 <= n <= 0x0D
    ||| n == 0x20
    ||| n == 0x85
    ||| n == 0xA0
    ||| n == 0x1680
    ||| 0x2000 <= n <= 0x200A
    ||| n == 0x2028
    ||| n == 0x2029
    ||| n == 0x202F
    ||| n == 0x205F
    ||| n == 0x3000
}

/// Index of the first character from `from` up to `to` that is not white
/// space, or `to` where there is none.
pub open spec fn trim_start(text: Seq<char>, from: int, to: int) -> int
    decreases to - from,
{
    if from >= to {
        to
    } else if !spec_is_whitespace(text[from]) {
        from
    } else {
        trim_start(text, from + 1, to)
    }
}

/// One past the index of the last character from `from` up to `to` that is
/// not white space, or `from` where there is none.
pub open spec fn trim_end(text: Seq<char>, from: int, to: int) -> int
    decreases to - from,
{
    if to <= from {
        from
    } else if !spec_is_whitespace(text[to - 1]) {
        to
    } else {
        trim_end(text, from, to - 1)
    }
}

/// The stretch from `from` up to `to` without the white space at its ends.
pub open spec fn trimmed_span(text: Seq<char>, from: int, to: int) -> (int, int) {
    let start = trim_start(text, from, to);
    (start, trim_end(text, start, to))
}

/// A text without the white space at its ends.
pub open spec fn trimmed(text: Seq<char>) -> Seq<char> {
    let (start, end) = trimmed_span(text, 0, text.len() as int);
    text.subrange(start, end)
}

/// The line that runs from `from` up to `to`, trimmed, as a sequence of
/// one line, or of none where nothing but white space is on it.
pub open spec fn line_at(text: Seq<char>, from: int, to: int) -> Seq<Seq<char>> {
    let (start, end) = trimmed_span(text, from, to);
    if start < end {
        seq![text.subrange(start, end)]
    } else {
        Seq::empty()
    }
}

/// The lines of the text from `pos` on, where the line that `pos` lies on
/// began at `start`. Lines end at a line feed or at the end of the text;
/// each is trimmed, and lines that hold nothing but white space are left
/// out.
pub open spec fn content_lines_from(text: Seq<char>, start: int, pos: int) -> Seq<Seq<char>>
    decreases text.len() - pos,
{
    if pos >= text.len() {
        line_at(text, start, text.len() as int)
    } else if text[pos] == '\n' {
        line_at(text, start, pos) + content_lines_from(text, pos + 1, pos + 1)
    } else {
        content_lines_from(text, start, pos + 1)
    }
}

/// The lines of a text, trimmed, without those that hold nothing but white
/// space.
pub open spec fn content_lines(text: Seq<char>) -> Seq<Seq<char>> {
    content_lines_from(text, 0, 0)
}

/// The characters of each span.
pub open spec fn spans_text(text: Seq<char>, spans: Seq<Span>) -> Seq<Seq<char>> {
    Seq::new(spans.len(), |i: int| text.subrange(spans[i].start as int, spans[i].end as int))
}

/// Whether every span lies inside a text of `len` characters.
pub open spec fn spans_within(spans: Seq<Span>, len: int) -> bool {
    forall|i: int| 0 <= i < spans.len() ==> (#[trigger] spans[i]).start <= spans[i].end <= len
}

/// Whether `text` begins with `prefix`.
pub open spec fn starts_with(text: Seq<char>, prefix: Seq<char>) -> bool {
    prefix.len() <= text.len() && text.subrange(0, prefix.len() as int) == prefix
}

/// Whether a character is white space.
pub fn is_whitespace(c: char) -> (r: bool)
    ensures
        r == spec_is_whitespace(c),
{
    let n: u32 = c as u32;
    (0x09 <= n && n <= 0x0D) || n == 0x20 || n == 0x85 || n == 0xA0 || n == 0x1680 || (0x2000
        <= n && n <= 0x200A) || n == 0x2028 || n == 0x2029 || n == 0x202F || n == 0x205F || n
        == 0x3000
}

/// The characters of a string.
pub fn chars_of(s: &str) -> (chars: Vec<char>)
    ensures
        chars@ == s@,
{
    let mut chars: Vec<char> = Vec::new();
    for c in it: s.chars()
        invariant
            chars@ == it.seq().take(it.index()),
    {
        chars.push(c);
    }
    chars
}

/// The string made of the characters from `from` up to `to`.
pub fn string_of(chars: &Vec<char>, from: usize, to: usize) -> (s: String)
    requires
        from <= to <= chars.len(),
    ensures
        s@ == chars@.subrange(from as int, to as int),
{
    let mut s = String::new();
    let mut i: usize = from;
    while i < to
        invariant
            from <= i <= to <= chars.len(),
            s@ == chars@.subrange(from as int, i as int),
        decreases to - i,
    {
        s.push(chars[i]);
        proof {
            assert(chars@.subrange(from as int, i as int).push(chars@[i as int])
                =~= chars@.subrange(from as int, i + 1));
        }
        i += 1;
    }
    s
}

/// The stretch from `from` up to `to` without the white space at its ends.
pub fn trim_span(text: &Vec<char>, from: usize, to: usize) -> (span: Span)
    requires
        from <= to <= text.len(),
    ensures
        (span.start as int, span.end as int) == trimmed_span(text@, from as int, to as int),
        from <= span.start <= span.end <= to,
{
    let mut start: usize = from;
    while start < to && is_whitespace(text[start])
        invariant
            from <= start <= to <= text.len(),
            trim_start(text@, from as int, to as int) == trim_start(text@, start as int, to as int),
        decreases to - start,
    {
        start += 1;
    }
    let mut end: usize = to;
    while end > start && is_whitespace(text[end - 1])
        invariant
            start <= end <= to <= text.len(),
            trim_end(text@, start as int, to as int) == trim_end(text@, start as int, end as int),
        decreases end - start,
    {
        end -= 1;
    }
    Span { start, end }
}

/// Appends the line that runs from `from` up to `to`, unless nothing but
/// white space is on it.
fn push_line(spans: &mut Vec<Span>, text: &Vec<char>, from: usize, to: usize)
    requires
        from <= to <= text.len(),
        spans_within(old(spans)@, text.len() as int),
    ensures
        spans_within(final(spans)@, text.len() as int),
        spans_text(text@, final(spans)@) == spans_text(text@, old(spans)@) + line_at(
            text@,
            from as int,
            to as int,
        ),
{
    let span = trim_span(text, from, to);
    if span.start < span.end {
        spans.push(span);
        proof {
            assert(spans_text(text@, spans@) =~= spans_text(text@, old(spans)@) + line_at(
                text@,
                from as int,
                to as int,
            ));
        }
    } else {
        proof {
            assert(spans_text(text@, spans@) =~= spans_text(text@, old(spans)@) + line_at(
                text@,
                from as int,
                to as int,
            ));
        }
    }
}

/// Where the lines of a text lie: one span per line that holds more than
/// white space, without the white space at its ends.
pub fn content_line_spans(text: &Vec<char>) -> (spans: Vec<Span>)
    ensures
        spans_within(spans@, text.len() as int),
        spans_text(text@, spans@) == content_lines(text@),
{
    let mut spans: Vec<Span> = Vec::new();
    let mut start: usize = 0;
    let mut pos: usize = 0;
    proof {
        assert(spans_text(text@, spans@) + content_lines_from(text@, 0, 0) =~= content_lines(
            text@,
        ));
    }
    while pos < text.len()
        invariant
            start <= pos <= text.len(),
            spans_within(spans@, text.len() as int),
            content_lines(text@) == spans_text(text@, spans@) + content_lines_from(
                text@,
                start as int,
                pos as int,
            ),
        decreases text.len() - pos,
    {
        if text[pos] == '\n' {
            let ghost before = spans_text(text@, spans@);
            push_line(&mut spans, text, start, pos);
            proof {
                let line = line_at(text@, start as int, pos as int);
                let rest = content_lines_from(text@, pos + 1, pos + 1);
                assert((before + line) + rest =~= before + (line + rest));
            }
            start = pos + 1;
        }
        pos += 1;
    }
    push_line(&mut spans, text, start, pos);
    spans
}

/// Whether the span of `text` begins with the two characters `first` and
/// `second`.
pub fn span_starts_with(text: &Vec<char>, span: &Span, first: char, second: char) -> (r: bool)
    requires
        span.start <= span.end <= text.len(),
    ensures
        r == starts_with(text@.subrange(span.start as int, span.end as int), seq![first, second]),
{
    if span.end - span.start < 2 {
        return false;
    }
    let r = text[span.start] == first && text[span.start + 1] == second;
    proof {
        let line = text@.subrange(span.start as int, span.end as int);
        let prefix = seq![first, second];
        assert(line.subrange(0, 2)[0] == line[0]);
        assert(line.subrange(0, 2)[1] == line[1]);
        if r {
            assert(line.subrange(0, 2) =~= prefix);
        } else {
            assert(prefix[0] == first && prefix[1] == second);
        }
    }
    r
}

/// The lower-case form of an ASCII letter, and any other character as it
/// is.
pub open spec fn spec_ascii_lower(c: char) -> char {
    if 'A' <= c <= 'Z' {
        ((c as u8 + 32) as u8) as char
    } else {
        c
    }
}

/// A text with its ASCII letters in lower case.
pub open spec fn ascii_lowercase(text: Seq<char>) -> Seq<char> {
    Seq::new(text.len(), |i: int| spec_ascii_lower(text[i]))
}

/// Whether `needle` occurs in `text` at position `at`.
pub open spec fn occurs_at(text: Seq<char>, needle: Seq<char>, at: int) -> bool {
    0 <= at && at + needle.len() <= text.len() && text.subrange(at, at + needle.len()) == needle
}

/// Whether `needle` occurs somewhere in `text`.
pub open spec fn contains(text: Seq<char>, needle: Seq<char>) -> bool {
    exists|at: int| occurs_at(text, needle, at)
}

/// What `str::to_lowercase` of the standard library makes of a text: its
/// lower-case form by the rules of Unicode.
pub uninterp spec fn unicode_lowercase(text: Seq<char>) -> Seq<char>;

/// The lower-case form of a text by the rules of Unicode: `str::to_lowercase`
/// of the standard library. The contract claims only that the result is a
/// function of the text, named [`unicode_lowercase`].
#[verifier::external_body]
pub(crate) fn to_lowercase(text: &str) -> (lower: String)
    ensures
        lower@ == unicode_lowercase(text@),
{
    text.to_lowercase()
}

/// The lower-case form of an ASCII letter, and any other character as it
/// is.
pub fn ascii_lower(c: char) -> (r: char)
    ensures
        r == spec_ascii_lower(c),
{
    if 'A' <= c && c <= 'Z' {
        ((c as u8) + 32) as char
    } else {
        c
    }
}

/// A text with its ASCII letters in lower case.
pub fn to_ascii_lowercase(text: &Vec<char>) -> (lower: Vec<char>)
    ensures
        lower@ == ascii_lowercase(text@),
{
    let mut lower: Vec<char> = Vec::new();
    let mut i: usize = 0;
    while i < text.len()
        invariant
            i <= text.len(),
            lower@ == ascii_lowercase(text@.take(i as int)),
        decreases text.len() - i,
    {
        lower.push(ascii_lower(text[i]));
        proof {
            assert(ascii_lowercase(text@.take(i as int)).push(spec_ascii_lower(text@[i as int]))
                =~= ascii_lowercase(text@.take(i + 1)));
        }
        i += 1;
    }
    proof {
        assert(text@.take(i as int) =~= text@);
    }
    lower
}

/// Whether two texts are the same.
pub fn same_text(a: &Vec<char>, b: &Vec<char>) -> (r: bool)
    ensures
        r == (a@ == b@),
{
    if a.len() != b.len() {
        return false;
    }
    let mut i: usize = 0;
    while i < a.len()
        invariant
            i <= a.len(),
            a.len() == b.len(),
            a@.take(i as int) == b@.take(i as int),
        decreases a.len() - i,
    {
        if a[i] != b[i] {
            return false;
        }
        proof {
            assert(a@.take(i + 1) =~= a@.take(i as int).push(a@[i as int]));
            assert(b@.take(i + 1) =~= b@.take(i as int).push(b@[i as int]));
        }
        i += 1;
    }
    proof {
        assert(a@.take(i as int) =~= a@);
        assert(b@.take(i as int) =~= b@);
    }
    true
}

/// Whether a text is the same as a string.
pub fn is_text(text: &Vec<char>, s: &str) -> (r: bool)
    ensures
        r == (text@ == s@),
{
    let other = chars_of(s);
    same_text(text, &other)
}

/// Whether `needle` occurs in `text` at position `at`.
pub fn has_at(text: &Vec<char>, needle: &Vec<char>, at: usize) -> (r: bool)
    requires
        at + needle.len() <= text.len(),
    ensures
        r == occurs_at(text@, needle@, at as int),
{
    let mut i: usize = 0;
    while i < needle.len()
        invariant
            i <= needle.len(),
            at + needle.len() <= text.len(),
            text@.subrange(at as int, at + i) == needle@.take(i as int),
        decreases needle.len() - i,
    {
        if text[at + i] != needle[i] {
            proof {
                let part = text@.subrange(at as int, at + needle.len());
                assert(part[i as int] != needle@[i as int]);
            }
            return false;
        }
        proof {
            assert(text@.subrange(at as int, at + i + 1) =~= text@.subrange(at as int, at + i).push(
                text@[at + i],
            ));
            assert(needle@.take(i + 1) =~= needle@.take(i as int).push(needle@[i as int]));
        }
        i += 1;
    }
    proof {
        assert(needle@.take(i as int) =~= needle@);
    }
    true
}

/// Whether `needle` occurs somewhere in `text`.
pub fn has_text(text: &Vec<char>, needle: &str) -> (r: bool)
    ensures
        r == contains(text@, needle@),
{
    let wanted = chars_of(needle);
    if wanted.len() > text.len() {
        proof {
            assert forall|at: int| !occurs_at(text@, needle@, at) by {}
        }
        return false;
    }
    let last: usize = text.len() - wanted.len();
    let mut at: usize = 0;
    loop
        invariant
            at <= last,
            wanted@ == needle@,
            last + wanted.len() == text.len(),
            forall|k: int| 0 <= k < at ==> !occurs_at(text@, needle@, k),
        decreases last - at,
    {
        if has_at(text, &wanted, at) {
            proof {
                assert(occurs_at(text@, needle@, at as int));
            }
            return true;
        }
        if at == last {
            proof {
                assert forall|k: int| !occurs_at(text@, needle@, k) by {}
            }
            return false;
        }
        at += 1;
    }
}

/// The word that runs from `from` up to `to`, as a sequence of one word,
/// or of none where the stretch is empty.
pub open spec fn word_at(text: Seq<char>, from: int, to: int) -> Seq<Seq<char>> {
    if from < to {
        seq![text.subrange(from, to)]
    } else {
        Seq::empty()
    }
}

/// The words of the text from `pos` on, where the word that `pos` lies in
/// began at `start`. A word is a longest stretch without white space.
pub open spec fn words_from(text: Seq<char>, start: int, pos: int) -> Seq<Seq<char>>
    decreases text.len() - pos,
{
    if pos >= text.len() {
        word_at(text, start, text.len() as int)
    } else if spec_is_whitespace(text[pos]) {
        word_at(text, start, pos) + words_from(text, pos + 1, pos + 1)
    } else {
        words_from(text, start, pos + 1)
    }
}

/// The words of a text.
pub open spec fn words(text: Seq<char>) -> Seq<Seq<char>> {
    words_from(text, 0, 0)
}

/// The words, one space between each two.
pub open spec fn joined(words: Seq<Seq<char>>) -> Seq<char>
    decreases words.len(),
{
    if words.len() == 0 {
        Seq::empty()
    } else if words.len() == 1 {
        words[0]
    } else {
        joined(words.drop_last()) + seq![' '] + words.last()
    }
}

/// A text with every run of white space turned into one space, and none
/// left at its ends.
pub open spec fn collapse_whitespace(text: Seq<char>) -> Seq<char> {
    joined(words(text))
}

fn push_word(spans: &mut Vec<Span>, text: &Vec<char>, from: usize, to: usize)
    requires
        from <= to <= text.len(),
        spans_within(old(spans)@, text.len() as int),
    ensures
        spans_within(final(spans)@, text.len() as int),
        spans_text(text@, final(spans)@) == spans_text(text@, old(spans)@) + word_at(
            text@,
            from as int,
            to as int,
        ),
{
    if from < to {
        spans.push(Span { start: from, end: to });
    }
    proof {
        assert(spans_text(text@, spans@) =~= spans_text(text@, old(spans)@) + word_at(
            text@,
            from as int,
            to as int,
        ));
    }
}

/// Where the words of a text lie.
pub fn word_spans(text: &Vec<char>) -> (spans: Vec<Span>)
    ensures
        spans_within(spans@, text.len() as int),
        spans_text(text@, spans@) == words(text@),
{
    let mut spans: Vec<Span> = Vec::new();
    let mut start: usize = 0;
    let mut pos: usize = 0;
    proof {
        assert(spans_text(text@, spans@) + words_from(text@, 0, 0) =~= words(text@));
    }
    while pos < text.len()
        invariant
            start <= pos <= text.len(),
            spans_within(spans@, text.len() as int),
            words(text@) == spans_text(text@, spans@) + words_from(
                text@,
                start as int,
                pos as int,
            ),
        decreases text.len() - pos,
    {
        if is_whitespace(text[pos]) {
            let ghost before = spans_text(text@, spans@);
            push_word(&mut spans, text, start, pos);
            proof {
                let word = word_at(text@, start as int, pos as int);
                let rest = words_from(text@, pos + 1, pos + 1);
                assert((before + word) + rest =~= before + (word + rest));
            }
            start = pos + 1;
        }
        pos += 1;
    }
    push_word(&mut spans, text, start, pos);
    spans
}

/// A text with every run of white space turned into one space, and none
/// left at its ends.
pub fn collapsed(text: &Vec<char>) -> (s: String)
    ensures
        s@ == collapse_whitespace(text@),
{
    let spans = word_spans(text);
    let ghost all = spans_text(text@, spans@);
    let mut s = String::new();
    let mut i: usize = 0;
    while i < spans.len()
        invariant
            i <= spans.len(),
            spans_within(spans@, text.len() as int),
            all == spans_text(text@, spans@),
            s@ == joined(all.take(i as int)),
        decreases spans.len() - i,
    {
        let span = spans[i];
        let ghost head = s@;
        if i > 0 {
            s.push(' ');
        }
        let mut k: usize = span.start;
        while k < span.end
            invariant
                span.start <= k <= span.end <= text.len(),
                s@ == (if i > 0 {
                    head + seq![' ']
                } else {
                    head
                }) + text@.subrange(span.start as int, k as int),
            decreases span.end - k,
        {
            s.push(text[k]);
            proof {
                assert(text@.subrange(span.start as int, k as int).push(text@[k as int])
                    =~= text@.subrange(span.start as int, k + 1));
            }
            k += 1;
        }
        proof {
            let next = all.take(i + 1);
            assert(next.drop_last() =~= all.take(i as int));
            assert(next.last() == text@.subrange(span.start as int, span.end as int));
            if i == 0 {
                assert(head =~= Seq::<char>::empty());
                assert(s@ =~= next[0]);
            }
        }
        i += 1;
    }
    proof {
        assert(all.take(i as int) =~= all);
    }
    s
}

/// Whether two strings are the same.
pub fn same_str(a: &str, b: &str) -> (r: bool)
    ensures
        r == (a@ == b@),
{
    let left = chars_of(a);
    let right = chars_of(b);
    same_text(&left, &right)
}

} // verus!
