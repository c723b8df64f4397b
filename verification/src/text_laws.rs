//! What holds of trimmed texts, of lines and of patterns that stand in them.

use crate::text::{
    drop_spaces, first_char, is_space, joined, joined_from, lemma_drop_spaces_bounds,
    lemma_first_char_is_first, lemma_skip_spaces_bounds, lines_from, lines_of, matches_at, same,
    skip_spaces, trimmed,
};
use vstd::prelude::*;

verus! {

/// Every character of the text has the property `p`.
pub open spec fn all_chars(text: Seq<char>, p: spec_fn(char) -> bool) -> bool {
    forall|i: int| 0 <= i < text.len() ==> p(#[trigger] text[i])
}

/// Every character of every line has the property `p`.
pub open spec fn all_lines(lines: Seq<Seq<char>>, p: spec_fn(char) -> bool) -> bool {
    forall|j: int| 0 <= j < lines.len() ==> all_chars(#[trigger] lines[j], p)
}

/// A pattern that holds neither a space nor a line feed, and is not empty.
pub open spec fn is_solid(pat: Seq<char>) -> bool {
    &&& pat.len() > 0
    &&& forall|j: int| 0 <= j < pat.len() ==> #[trigger] pat[j] != ' ' && pat[j] != '\n'
}

/// Trimming adds no character.
pub proof fn lemma_trimmed_keeps(text: Seq<char>, p: spec_fn(char) -> bool)
    requires
        all_chars(text, p),
    ensures
        all_chars(trimmed(text), p),
{
    lemma_skip_spaces_bounds(text, 0);
    lemma_drop_spaces_bounds(text, skip_spaces(text, 0), text.len() as int);
}

/// A trimmed text begins and ends with a character that is no white space,
/// unless it is empty.
pub proof fn lemma_trimmed_is_bare(text: Seq<char>)
    ensures
        trimmed(text).len() > 0 ==> !is_space(trimmed(text)[0]) && !is_space(trimmed(text).last()),
{
    lemma_skip_spaces_bounds(text, 0);
    let start = skip_spaces(text, 0);
    lemma_drop_spaces_bounds(text, start, text.len() as int);
}

/// Trimming a text that is trimmed changes nothing.
pub proof fn lemma_trimming_twice_is_trimming_once(text: Seq<char>)
    ensures
        trimmed(trimmed(text)) == trimmed(text),
{
    lemma_skip_spaces_bounds(text, 0);
    let start = skip_spaces(text, 0);
    lemma_drop_spaces_bounds(text, start, text.len() as int);
    let once = trimmed(text);
    lemma_skip_spaces_bounds(once, 0);
    lemma_drop_spaces_bounds(once, skip_spaces(once, 0), once.len() as int);
    if once.len() > 0 {
        assert(once[0] == text[start]);
        assert(once[once.len() - 1] == text[start + once.len() - 1]);
        assert(skip_spaces(once, 0) == 0);
        assert(drop_spaces(once, 0, once.len() as int) == once.len());
    }
    assert(trimmed(once) =~= once);
}

/// A match of a pattern that holds no white space lies in the trimmed text too.
pub proof fn lemma_trim_keeps_match(text: Seq<char>, at: int, pat: Seq<char>, fold: bool)
    requires
        matches_at(text, at, pat, fold),
        pat.len() > 0,
        !is_space(text[at]),
        !is_space(text[at + pat.len() - 1]),
    ensures
        matches_at(trimmed(text), at - skip_spaces(text, 0), pat, fold),
{
    lemma_skip_spaces_bounds(text, 0);
    let start = skip_spaces(text, 0);
    lemma_drop_spaces_bounds(text, start, text.len() as int);
    let end = drop_spaces(text, start, text.len() as int);
    assert(start <= at);
    assert(at + pat.len() <= end);
    assert forall|j: int| 0 <= j < pat.len() implies same(
        trimmed(text)[at - start + j],
        #[trigger] pat[j],
        fold,
    ) by {
        assert(trimmed(text)[at - start + j] == text[at + j]);
    }
}

/// A pattern that stands in a part of a text stands in the text.
pub proof fn lemma_match_in_part(
    text: Seq<char>,
    start: int,
    end: int,
    p: int,
    pat: Seq<char>,
    fold: bool,
)
    requires
        0 <= start <= end <= text.len(),
        matches_at(text.subrange(start, end), p, pat, fold),
    ensures
        matches_at(text, start + p, pat, fold),
{
    assert forall|j: int| 0 <= j < pat.len() implies same(
        text[start + p + j],
        #[trigger] pat[j],
        fold,
    ) by {
        assert(text.subrange(start, end)[p + j] == text[start + p + j]);
    }
}

/// The lines of a text hold its characters only.
pub proof fn lemma_lines_keep(text: Seq<char>, from: int, p: spec_fn(char) -> bool)
    requires
        all_chars(text, p),
        0 <= from <= text.len(),
    ensures
        all_lines(lines_from(text, from), p),
    decreases text.len() - from,
{
    lemma_first_char_is_first(text, from, '\n');
    match first_char(text, from, '\n') {
        Some(at) => {
            lemma_lines_keep(text, at + 1, p);
            let rest = lines_from(text, at + 1);
            let all = lines_from(text, from);
            assert forall|j: int| 0 <= j < all.len() implies all_chars(#[trigger] all[j], p) by {
                if j > 0 {
                    assert(all[j] == rest[j - 1]);
                }
            }
        },
        None => {},
    }
}

/// Every line of a text is a part of the text.
pub proof fn lemma_line_is_part(text: Seq<char>, from: int, m: int) -> (part: (int, int))
    requires
        0 <= from <= text.len(),
        0 <= m < lines_from(text, from).len(),
    ensures
        from <= part.0 <= part.1 <= text.len(),
        lines_from(text, from)[m] == text.subrange(part.0, part.1),
    decreases text.len() - from,
{
    lemma_first_char_is_first(text, from, '\n');
    match first_char(text, from, '\n') {
        Some(at) => {
            if m == 0 {
                (from, at)
            } else {
                assert(lines_from(text, from)[m] == lines_from(text, at + 1)[m - 1]);
                lemma_line_is_part(text, at + 1, m - 1)
            }
        },
        None => (from, text.len() as int),
    }
}

/// Joining lines adds nothing but line feeds.
pub proof fn lemma_joined_keeps(lines: Seq<Seq<char>>, from: int, p: spec_fn(char) -> bool)
    requires
        all_lines(lines, p),
        p('\n'),
        0 <= from,
    ensures
        all_chars(joined_from(lines, from), p),
    decreases lines.len() - from,
{
    if from < lines.len() {
        assert(all_chars(lines[from], p));
        if from < lines.len() - 1 {
            lemma_joined_keeps(lines, from + 1, p);
        }
    }
}

proof fn lemma_joined_in_back(front: Seq<Seq<char>>, back: Seq<Seq<char>>, at: int)
    requires
        0 <= at <= back.len(),
    ensures
        joined_from(front + back, front.len() + at) == joined_from(back, at),
    decreases back.len() - at,
{
    let all = front + back;
    if at < back.len() {
        assert(all[front.len() + at] == back[at]);
        lemma_joined_in_back(front, back, at + 1);
    }
}

proof fn lemma_lines_from_join(text: Seq<char>, from: int)
    requires
        0 <= from <= text.len(),
    ensures
        lines_from(text, from).len() > 0,
        joined(lines_from(text, from)) == text.subrange(from, text.len() as int),
    decreases text.len() - from,
{
    lemma_first_char_is_first(text, from, '\n');
    match first_char(text, from, '\n') {
        Some(at) => {
            lemma_lines_from_join(text, at + 1);
            let first = seq![text.subrange(from, at)];
            let rest = lines_from(text, at + 1);
            lemma_joined_in_back(first, rest, 0);
            assert(joined(first + rest) =~= text.subrange(from, at) + seq!['\n'] + joined(rest));
            assert(text.subrange(from, at) + seq!['\n'] + text.subrange(
                at + 1,
                text.len() as int,
            ) =~= text.subrange(from, text.len() as int));
        },
        None => {},
    }
}

/// The lines of a text, joined again, are the text.
pub proof fn lemma_joined_lines_are_the_text(text: Seq<char>)
    ensures
        joined(lines_of(text)) == text,
{
    lemma_lines_from_join(text, 0);
    assert(text.subrange(0, text.len() as int) =~= text);
}

/// A solid pattern that stands in joined lines stands in one of the lines.
pub proof fn lemma_match_in_joined(
    lines: Seq<Seq<char>>,
    from: int,
    p: int,
    pat: Seq<char>,
    fold: bool,
) -> (found: (int, int))
    requires
        0 <= from,
        is_solid(pat),
        matches_at(joined_from(lines, from), p, pat, fold),
    ensures
        from <= found.0 < lines.len(),
        matches_at(lines[found.0], found.1, pat, fold),
    decreases lines.len() - from,
{
    let out = joined_from(lines, from);
    if from == lines.len() - 1 {
        (from, p)
    } else {
        let first = lines[from];
        let rest = joined_from(lines, from + 1);
        assert(out == first + seq!['\n'] + rest);
        if p + pat.len() <= first.len() {
            assert forall|j: int| 0 <= j < pat.len() implies same(
                first[p + j],
                #[trigger] pat[j],
                fold,
            ) by {
                assert(out[p + j] == first[p + j]);
            }
            (from, p)
        } else if p <= first.len() {
            let j = first.len() - p;
            assert(out[p + j] == '\n');
            assert(same(out[p + j], pat[j], fold));
            assert(false);
            (from, p)
        } else {
            let shift = first.len() + 1;
            assert forall|j: int| 0 <= j < pat.len() implies same(
                rest[p - shift + j],
                #[trigger] pat[j],
                fold,
            ) by {
                assert(out[p + j] == rest[p - shift + j]);
            }
            lemma_match_in_joined(lines, from + 1, p - shift, pat, fold)
        }
    }
}

} // verus!
