//! Element sets as text: finding the three-line groups of name, first line
//! and second line in a feed.

use vstd::prelude::*;
use crate::text::{
    chars_of, content_line_spans, content_lines, content_lines_from, line_at, span_starts_with,
    spans_text, spans_within, spec_is_whitespace, starts_with, string_of, trim_end, trim_start,
};

verus! {

/// The name and the two lines of one element set, as they stood in a feed.
#[derive(Clone, Debug)]
pub struct TlePair {
    pub name: String,
    pub line1: String,
    pub line2: String,
}

/// What a [`TlePair`] holds, as character sequences.
pub struct TlePairText {
    pub name: Seq<char>,
    pub line1: Seq<char>,
    pub line2: Seq<char>,
}

impl View for TlePair {
    type V = TlePairText;

    open spec fn view(&self) -> TlePairText {
        TlePairText { name: self.name@, line1: self.line1@, line2: self.line2@ }
    }
}

/// What each pair holds.
pub open spec fn pairs_text(pairs: Seq<TlePair>) -> Seq<TlePairText> {
    Seq::new(pairs.len(), |i: int| pairs[i]@)
}

/// Whether a line opens like the first line of an element set.
pub open spec fn is_first_line(line: Seq<char>) -> bool {
    starts_with(line, seq!['1', ' '])
}

/// Whether a line opens like the second line of an element set.
pub open spec fn is_second_line(line: Seq<char>) -> bool {
    starts_with(line, seq!['2', ' '])
}

/// The element sets among `lines` from line `i` on. Three lines make one
/// where the second opens like a first line and the third like a second
/// line; the first of the three is its name. Where they do not, the search
/// goes on one line further.
pub open spec fn tle_pairs_from(lines: Seq<Seq<char>>, i: int) -> Seq<TlePairText>
    decreases lines.len() - i,
{
    if i < 0 || i + 2 >= lines.len() {
        Seq::empty()
    } else if is_first_line(lines[i + 1]) && is_second_line(lines[i + 2]) {
        seq![TlePairText { name: lines[i], line1: lines[i + 1], line2: lines[i + 2] }]
            + tle_pairs_from(lines, i + 3)
    } else {
        tle_pairs_from(lines, i + 1)
    }
}

/// The element sets that a text holds.
pub open spec fn tle_pairs(text: Seq<char>) -> Seq<TlePairText> {
    tle_pairs_from(content_lines(text), 0)
}

fn collect_pairs(text: &str) -> (pairs: Vec<TlePair>)
    ensures
        pairs_text(pairs@) == tle_pairs(text@),
{
    let chars = chars_of(text);
    let spans = content_line_spans(&chars);
    let ghost lines = content_lines(text@);
    let mut pairs: Vec<TlePair> = Vec::new();
    let mut i: usize = 0;
    proof {
        assert(pairs_text(pairs@) + tle_pairs_from(lines, 0) =~= tle_pairs(text@));
    }
    while i < spans.len() && spans.len() - i > 2
        invariant
            i <= spans.len(),
            chars@ == text@,
            lines == content_lines(text@),
            spans_within(spans@, chars.len() as int),
            spans_text(chars@, spans@) == lines,
            tle_pairs(text@) == pairs_text(pairs@) + tle_pairs_from(lines, i as int),
        decreases spans.len() - i,
    {
        let name = spans[i];
        let first = spans[i + 1];
        let second = spans[i + 2];
        assert(lines[i as int] == chars@.subrange(name.start as int, name.end as int));
        assert(lines[i + 1] == chars@.subrange(first.start as int, first.end as int));
        assert(lines[i + 2] == chars@.subrange(second.start as int, second.end as int));
        if span_starts_with(&chars, &first, '1', ' ') && span_starts_with(
            &chars,
            &second,
            '2',
            ' ',
        ) {
            let ghost before = pairs_text(pairs@);
            let pair = TlePair {
                name: string_of(&chars, name.start, name.end),
                line1: string_of(&chars, first.start, first.end),
                line2: string_of(&chars, second.start, second.end),
            };
            pairs.push(pair);
            proof {
                let found = seq![
                    TlePairText { name: lines[i as int], line1: lines[i + 1], line2: lines[i + 2] },
                ];
                assert(pairs_text(pairs@) =~= before + found);
                assert((before + found) + tle_pairs_from(lines, i + 3) =~= before + (found
                    + tle_pairs_from(lines, i + 3)));
            }
            i += 3;
        } else {
            i += 1;
        }
    }
    proof {
        assert(pairs_text(pairs@) + Seq::<TlePairText>::empty() =~= pairs_text(pairs@));
    }
    pairs
}

/// Finds the element sets in the text of a feed. Every text can be read:
/// lines that belong to no element set are passed over.
pub fn parse_tle_text(text: &str) -> (r: Result<Vec<TlePair>, String>)
    ensures
        r matches Ok(pairs) && pairs_text(pairs@) == tle_pairs(text@),
{
    Ok(collect_pairs(text))
}

/// Finds the element sets in a text that was stored earlier, one set per
/// three lines.
pub fn parse_cached_tle(text: &str) -> (pairs: Vec<TlePair>)
    ensures
        pairs_text(pairs@) == tle_pairs(text@),
{
    collect_pairs(text)
}

/// The three lines of each element set, one set after the other.
pub open spec fn pair_lines(pairs: Seq<TlePairText>) -> Seq<Seq<char>>
    decreases pairs.len(),
{
    if pairs.len() == 0 {
        Seq::empty()
    } else {
        pair_lines(pairs.drop_last()).push(pairs.last().name).push(pairs.last().line1).push(
            pairs.last().line2,
        )
    }
}

/// The lines, with a line feed between each two.
pub open spec fn joined_lines(lines: Seq<Seq<char>>) -> Seq<char>
    decreases lines.len(),
{
    if lines.len() == 0 {
        Seq::empty()
    } else if lines.len() == 1 {
        lines[0]
    } else {
        joined_lines(lines.drop_last()) + seq!['\n'] + lines.last()
    }
}

/// The text under which element sets are stored: name, first line and
/// second line of each set, one per line.
pub open spec fn spec_cache_text(pairs: Seq<TlePairText>) -> Seq<char> {
    joined_lines(pair_lines(pairs))
}

fn append_line(text: &mut String, line: &str, first: bool, Ghost(lines): Ghost<Seq<Seq<char>>>)
    requires
        old(text)@ == joined_lines(lines),
        first == (lines.len() == 0),
    ensures
        final(text)@ == joined_lines(lines.push(line@)),
{
    let ghost before = text@;
    let chars = chars_of(line);
    if !first {
        text.push('\n');
    }
    let ghost head = text@;
    let mut i: usize = 0;
    while i < chars.len()
        invariant
            i <= chars.len(),
            text@ == head + chars@.take(i as int),
        decreases chars.len() - i,
    {
        text.push(chars[i]);
        proof {
            assert(chars@.take(i as int).push(chars@[i as int]) =~= chars@.take(i + 1));
        }
        i += 1;
    }
    proof {
        assert(chars@.take(i as int) =~= chars@);
        assert(lines.push(line@).drop_last() =~= lines);
        if lines.len() == 0 {
            assert(before =~= Seq::<char>::empty());
            assert(text@ =~= line@);
        }
    }
}

/// Writes element sets as the text under which they are stored.
pub fn cache_text(pairs: &Vec<TlePair>) -> (text: String)
    ensures
        text@ == spec_cache_text(pairs_text(pairs@)),
{
    let ghost all = pairs_text(pairs@);
    let mut text = String::new();
    let mut i: usize = 0;
    while i < pairs.len()
        invariant
            i <= pairs.len(),
            all == pairs_text(pairs@),
            text@ == spec_cache_text(all.take(i as int)),
        decreases pairs.len() - i,
    {
        let ghost lines = pair_lines(all.take(i as int));
        let pair = &pairs[i];
        proof {
            lemma_three_lines_each(all.take(i as int));
        }
        append_line(&mut text, pair.name.as_str(), i == 0, Ghost(lines));
        append_line(&mut text, pair.line1.as_str(), false, Ghost(lines.push(pair.name@)));
        append_line(
            &mut text,
            pair.line2.as_str(),
            false,
            Ghost(lines.push(pair.name@).push(pair.line1@)),
        );
        proof {
            assert(all.take(i + 1).drop_last() =~= all.take(i as int));
            assert(all.take(i + 1).last() == pairs@[i as int]@);
        }
        i += 1;
    }
    proof {
        assert(all.take(i as int) =~= all);
    }
    text
}

/// Every element set is written on three lines.
pub proof fn lemma_three_lines_each(pairs: Seq<TlePairText>)
    ensures
        pair_lines(pairs).len() == 3 * pairs.len(),
    decreases pairs.len(),
{
    if pairs.len() > 0 {
        lemma_three_lines_each(pairs.drop_last());
    }
}

/// Whether a line can be stored on a line of its own: it is not empty,
/// holds no line feed, and neither begins nor ends with white space.
pub open spec fn storable(line: Seq<char>) -> bool {
    &&& line.len() > 0
    &&& !spec_is_whitespace(line[0])
    &&& !spec_is_whitespace(line.last())
    &&& forall|i: int| 0 <= i < line.len() ==> #[trigger] line[i] != '\n'
}

/// Whether every line can be stored on a line of its own.
pub open spec fn all_storable(lines: Seq<Seq<char>>) -> bool {
    forall|i: int| 0 <= i < lines.len() ==> storable(#[trigger] lines[i])
}

/// Whether an element set can be stored: its three lines can, and its
/// first and second line open as such lines do.
pub open spec fn storable_pair(pair: TlePairText) -> bool {
    &&& storable(pair.name)
    &&& storable(pair.line1)
    &&& storable(pair.line2)
    &&& is_first_line(pair.line1)
    &&& is_second_line(pair.line2)
}

/// Where line `k` begins in the text that the lines are joined to.
pub open spec fn line_start(lines: Seq<Seq<char>>, k: int) -> int
    decreases k,
{
    if k <= 0 {
        0
    } else {
        line_start(lines, k - 1) + lines[k - 1].len() + 1
    }
}

proof fn lemma_joined_layout(lines: Seq<Seq<char>>)
    requires
        lines.len() > 0,
    ensures
        joined_lines(lines).len() == line_start(lines, lines.len() as int) - 1,
        forall|k: int|
            0 <= k < lines.len() ==> 0 <= #[trigger] line_start(lines, k) && line_start(lines, k)
                + lines[k].len() <= joined_lines(lines).len() && joined_lines(lines).subrange(
                line_start(lines, k),
                line_start(lines, k) + lines[k].len(),
            ) == lines[k],
        forall|k: int|
            0 <= k < lines.len() - 1 ==> joined_lines(lines)[#[trigger] line_start(lines, k)
                + lines[k].len()] == '\n',
    decreases lines.len(),
{
    let n = lines.len() as int;
    let text = joined_lines(lines);
    if n == 1 {
        assert(line_start(lines, 0) == 0);
        assert(line_start(lines, 1) == lines[0].len() + 1);
        assert(text.subrange(0, lines[0].len() as int) =~= lines[0]);
    } else {
        let before = lines.drop_last();
        lemma_joined_layout(before);
        lemma_same_starts(lines, before, n - 1);
        let head = joined_lines(before);
        let last = lines.last();
        assert(text == head + seq!['\n'] + last);
        assert(line_start(lines, n) == line_start(lines, n - 1) + lines[n - 1].len() + 1);
        assert(head.len() == line_start(lines, n - 1) - 1);
        assert forall|k: int| 0 <= k < n implies 0 <= #[trigger] line_start(lines, k)
            && line_start(lines, k) + lines[k].len() <= text.len() && text.subrange(
            line_start(lines, k),
            line_start(lines, k) + lines[k].len(),
        ) == lines[k] by {
            lemma_line_start_bounds(lines, k);
            if k < n - 1 {
                lemma_same_starts(lines, before, k);
                assert(before[k] == lines[k]);
                let from = line_start(before, k);
                assert(from + before[k].len() <= head.len());
                assert(head.subrange(from, from + before[k].len()) == before[k]);
                assert(text.subrange(from, from + before[k].len()) =~= head.subrange(
                    from,
                    from + before[k].len(),
                ));
            } else {
                let from = line_start(lines, k);
                assert(from == head.len() + 1);
                assert(text.subrange(from, from + last.len()) =~= last);
            }
        }
        assert forall|k: int| 0 <= k < n - 1 implies text[#[trigger] line_start(lines, k)
            + lines[k].len()] == '\n' by {
            lemma_same_starts(lines, before, k);
            lemma_line_start_bounds(lines, k);
            assert(before[k] == lines[k]);
            let at = line_start(before, k) + before[k].len();
            if k < n - 2 {
                assert(head[at] == '\n');
                assert(line_start(before, k + 1) == at + 1);
                assert(line_start(before, k + 1) + before[k + 1].len() <= head.len());
                assert(at < head.len());
                assert(text[at] == head[at]);
            } else {
                assert(line_start(before, n - 1) == line_start(before, k) + before[k].len() + 1);
                assert(at == head.len());
                assert(text[at] == '\n');
            }
        }
    }
}

proof fn lemma_line_start_bounds(lines: Seq<Seq<char>>, k: int)
    requires
        0 <= k,
    ensures
        0 <= line_start(lines, k),
        k > 0 ==> line_start(lines, k) >= 1,
    decreases k,
{
    if k > 0 {
        lemma_line_start_bounds(lines, k - 1);
    }
}

proof fn lemma_same_starts(lines: Seq<Seq<char>>, before: Seq<Seq<char>>, k: int)
    requires
        before == lines.drop_last(),
        lines.len() > 0,
        0 <= k <= before.len(),
    ensures
        line_start(lines, k) == line_start(before, k),
    decreases k,
{
    if k > 0 {
        lemma_same_starts(lines, before, k - 1);
        assert(before[k - 1] == lines[k - 1]);
    }
}

proof fn lemma_scan_to_line_end(text: Seq<char>, start: int, pos: int, end: int)
    requires
        0 <= start <= pos <= end <= text.len(),
        forall|i: int| pos <= i < end ==> #[trigger] text[i] != '\n',
        end < text.len() ==> text[end] == '\n',
    ensures
        content_lines_from(text, start, pos) == line_at(text, start, end) + (if end < text.len() {
            content_lines_from(text, end + 1, end + 1)
        } else {
            Seq::empty()
        }),
    decreases end - pos,
{
    if pos < end {
        lemma_scan_to_line_end(text, start, pos + 1, end);
    } else if end >= text.len() {
        assert(line_at(text, start, end) + Seq::<Seq<char>>::empty() =~= line_at(text, start, end));
    }
}

proof fn lemma_lines_from(lines: Seq<Seq<char>>, k: int)
    requires
        lines.len() > 0,
        all_storable(lines),
        0 <= k < lines.len(),
    ensures
        content_lines_from(joined_lines(lines), line_start(lines, k), line_start(lines, k))
            == lines.skip(k),
    decreases lines.len() - k,
{
    let text = joined_lines(lines);
    let from = line_start(lines, k);
    let end = from + lines[k].len();
    lemma_joined_layout(lines);
    lemma_line_start_bounds(lines, k);
    assert(storable(lines[k]));
    assert(text.subrange(from, end) == lines[k]);
    assert forall|i: int| from <= i < end implies #[trigger] text[i] != '\n' by {
        assert(text[i] == text.subrange(from, end)[i - from]);
        assert(lines[k][i - from] != '\n');
    }
    assert(line_start(lines, k + 1) == end + 1);
    if k < lines.len() - 1 {
        assert(text[end] == '\n');
    } else {
        assert(end == text.len());
    }
    lemma_scan_to_line_end(text, from, from, end);
    assert(text[from] == text.subrange(from, end)[0]);
    assert(text[end - 1] == text.subrange(from, end)[end - 1 - from]);
    assert(trim_start(text, from, end) == from);
    assert(trim_end(text, from, end) == end);
    assert(line_at(text, from, end) == seq![lines[k]]);
    if k < lines.len() - 1 {
        lemma_lines_from(lines, k + 1);
        assert(seq![lines[k]] + lines.skip(k + 1) =~= lines.skip(k));
    } else {
        assert(seq![lines[k]] + Seq::<Seq<char>>::empty() =~= lines.skip(k));
    }
}

proof fn lemma_pair_lines_layout(pairs: Seq<TlePairText>)
    ensures
        pair_lines(pairs).len() == 3 * pairs.len(),
        forall|i: int|
            0 <= i < pairs.len() ==> pair_lines(pairs)[3 * i] == (#[trigger] pairs[i]).name
                && pair_lines(pairs)[3 * i + 1] == pairs[i].line1 && pair_lines(pairs)[3 * i + 2]
                == pairs[i].line2,
    decreases pairs.len(),
{
    if pairs.len() > 0 {
        let before = pairs.drop_last();
        lemma_pair_lines_layout(before);
        assert forall|i: int| 0 <= i < pairs.len() implies pair_lines(pairs)[3 * i] == (
        #[trigger] pairs[i]).name && pair_lines(pairs)[3 * i + 1] == pairs[i].line1 && pair_lines(
            pairs,
        )[3 * i + 2] == pairs[i].line2 by {
            if i < before.len() {
                assert(before[i] == pairs[i]);
            }
        }
    }
}

proof fn lemma_pairs_from(pairs: Seq<TlePairText>, k: int)
    requires
        forall|i: int| 0 <= i < pairs.len() ==> storable_pair(#[trigger] pairs[i]),
        0 <= k <= pairs.len(),
    ensures
        tle_pairs_from(pair_lines(pairs), 3 * k) == pairs.skip(k),
    decreases pairs.len() - k,
{
    lemma_pair_lines_layout(pairs);
    let lines = pair_lines(pairs);
    if k < pairs.len() {
        lemma_pairs_from(pairs, k + 1);
        assert(storable_pair(pairs[k]));
        assert(lines[3 * k + 1] == pairs[k].line1);
        assert(lines[3 * k + 2] == pairs[k].line2);
        assert(seq![pairs[k]] + pairs.skip(k + 1) =~= pairs.skip(k));
        assert(TlePairText {
            name: lines[3 * k],
            line1: lines[3 * k + 1],
            line2: lines[3 * k + 2],
        } == pairs[k]);
    } else {
        assert(pairs.skip(k) =~= Seq::<TlePairText>::empty());
    }
}

/// Element sets that are stored and read back are the element sets that
/// were stored, as long as each of them can be stored.
pub proof fn lemma_stored_sets_read_back(pairs: Seq<TlePairText>)
    requires
        forall|i: int| 0 <= i < pairs.len() ==> storable_pair(#[trigger] pairs[i]),
    ensures
        tle_pairs(spec_cache_text(pairs)) == pairs,
{
    lemma_pair_lines_layout(pairs);
    let lines = pair_lines(pairs);
    if pairs.len() > 0 {
        assert forall|i: int| 0 <= i < lines.len() implies storable(#[trigger] lines[i]) by {
            let p = i / 3;
            assert(storable_pair(pairs[p]));
            assert(i == 3 * p || i == 3 * p + 1 || i == 3 * p + 2);
        }
        lemma_lines_from(lines, 0);
        assert(lines.skip(0) =~= lines);
    }
    lemma_pairs_from(pairs, 0);
    assert(pairs.skip(0) =~= pairs);
}

proof fn lemma_trim_start_bounds(text: Seq<char>, from: int, to: int)
    requires
        0 <= from <= to <= text.len(),
    ensures
        from <= trim_start(text, from, to) <= to,
        trim_start(text, from, to) < to ==> !spec_is_whitespace(text[trim_start(text, from, to)]),
    decreases to - from,
{
    if from < to && spec_is_whitespace(text[from]) {
        lemma_trim_start_bounds(text, from + 1, to);
    }
}

proof fn lemma_trim_end_bounds(text: Seq<char>, from: int, to: int)
    requires
        0 <= from <= to <= text.len(),
    ensures
        from <= trim_end(text, from, to) <= to,
        trim_end(text, from, to) > from ==> !spec_is_whitespace(
            text[trim_end(text, from, to) - 1],
        ),
    decreases to - from,
{
    if from < to && spec_is_whitespace(text[to - 1]) {
        lemma_trim_end_bounds(text, from, to - 1);
    }
}

proof fn lemma_line_is_storable(text: Seq<char>, from: int, to: int)
    requires
        0 <= from <= to <= text.len(),
        forall|i: int| from <= i < to ==> #[trigger] text[i] != '\n',
    ensures
        all_storable(line_at(text, from, to)),
{
    lemma_trim_start_bounds(text, from, to);
    let start = trim_start(text, from, to);
    lemma_trim_end_bounds(text, start, to);
    let end = trim_end(text, start, to);
    if start < end {
        let line = text.subrange(start, end);
        assert(line[0] == text[start]);
        assert(line.last() == text[end - 1]);
        assert forall|i: int| 0 <= i < line.len() implies #[trigger] line[i] != '\n' by {
            assert(line[i] == text[start + i]);
        }
        assert(storable(line));
        assert(line_at(text, from, to)[0] == line);
    }
}

proof fn lemma_content_lines_are_storable(text: Seq<char>, start: int, pos: int)
    requires
        0 <= start <= pos <= text.len(),
        forall|i: int| start <= i < pos ==> #[trigger] text[i] != '\n',
    ensures
        all_storable(content_lines_from(text, start, pos)),
    decreases text.len() - pos,
{
    if pos >= text.len() {
        lemma_line_is_storable(text, start, text.len() as int);
    } else if text[pos] == '\n' {
        lemma_line_is_storable(text, start, pos);
        lemma_content_lines_are_storable(text, pos + 1, pos + 1);
        let line = line_at(text, start, pos);
        let rest = content_lines_from(text, pos + 1, pos + 1);
        assert forall|i: int| 0 <= i < (line + rest).len() implies storable(
            #[trigger] (line + rest)[i],
        ) by {
            if i < line.len() {
                assert((line + rest)[i] == line[i]);
            } else {
                assert((line + rest)[i] == rest[i - line.len()]);
            }
        }
    } else {
        lemma_content_lines_are_storable(text, start, pos + 1);
    }
}

proof fn lemma_pairs_of_storable_lines(lines: Seq<Seq<char>>, i: int)
    requires
        all_storable(lines),
        0 <= i,
    ensures
        forall|k: int|
            0 <= k < tle_pairs_from(lines, i).len() ==> storable_pair(
                #[trigger] tle_pairs_from(lines, i)[k],
            ),
    decreases lines.len() - i,
{
    let all = tle_pairs_from(lines, i);
    if i + 2 < lines.len() {
        if is_first_line(lines[i + 1]) && is_second_line(lines[i + 2]) {
            lemma_pairs_of_storable_lines(lines, i + 3);
            let first = TlePairText { name: lines[i], line1: lines[i + 1], line2: lines[i + 2] };
            let rest = tle_pairs_from(lines, i + 3);
            assert(all == seq![first] + rest);
            assert(storable(lines[i]) && storable(lines[i + 1]) && storable(lines[i + 2]));
            assert(storable_pair(first));
            assert forall|k: int| 0 <= k < all.len() implies storable_pair(#[trigger] all[k]) by {
                if k >= 1 {
                    assert(all[k] == rest[k - 1]);
                } else {
                    assert(all[k] == first);
                }
            }
        } else {
            lemma_pairs_of_storable_lines(lines, i + 1);
            assert(all == tle_pairs_from(lines, i + 1));
        }
    } else {
        assert(all.len() == 0);
    }
}

/// Every element set found in a text can be stored, so that storing what
/// was found and reading it back gives what was found.
pub proof fn lemma_found_sets_read_back(text: Seq<char>)
    ensures
        forall|k: int|
            0 <= k < tle_pairs(text).len() ==> storable_pair(#[trigger] tle_pairs(text)[k]),
        tle_pairs(spec_cache_text(tle_pairs(text))) == tle_pairs(text),
{
    lemma_content_lines_are_storable(text, 0, 0);
    lemma_pairs_of_storable_lines(content_lines(text), 0);
    lemma_stored_sets_read_back(tle_pairs(text));
}

} // verus!
