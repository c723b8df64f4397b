//! What holds of lines once they are tidied and squeezed: nothing is added
//! but spaces and line feeds, nothing is moved together, and no gap and no
//! run of empty lines is left that is longer than two.

use crate::extract::{
    blank_run_end, gap_end, gaps_evened, gaps_evened_from, lemma_blank_run_end_bounds,
    lemma_gap_end_bounds, looks_like_css, normalized, printed_lines, squeezed_from, tidied_from,
};
use crate::text::{
    drop_spaces, is_gap, lemma_drop_spaces_bounds, lemma_skip_spaces_bounds, lines_of, matches_at,
    same, skip_spaces, trimmed,
};
use crate::text_laws::{
    all_chars, all_lines, is_solid, lemma_joined_keeps, lemma_line_is_part, lemma_lines_keep,
    lemma_match_in_joined, lemma_match_in_part, lemma_trimmed_keeps,
};
use vstd::prelude::*;

verus! {

/// Evening the gaps of a line adds nothing but spaces.
pub proof fn lemma_gaps_evened_keep(line: Seq<char>, at: int, p: spec_fn(char) -> bool)
    requires
        all_chars(line, p),
        p(' '),
        0 <= at,
    ensures
        all_chars(gaps_evened_from(line, at), p),
    decreases line.len() - at,
{
    if at < line.len() {
        lemma_gap_end_bounds(line, at);
        let end = gap_end(line, at);
        if at + 2 <= end <= line.len() {
            lemma_gaps_evened_keep(line, end, p);
        } else {
            lemma_gaps_evened_keep(line, at + 1, p);
        }
    }
}

/// Tidying lines adds nothing but spaces.
pub proof fn lemma_tidied_keep(lines: Seq<Seq<char>>, from: int, p: spec_fn(char) -> bool)
    requires
        all_lines(lines, p),
        p(' '),
        0 <= from,
    ensures
        all_lines(tidied_from(lines, from), p),
    decreases lines.len() - from,
{
    if from < lines.len() {
        lemma_tidied_keep(lines, from + 1, p);
        lemma_trimmed_keeps(lines[from], p);
        lemma_gaps_evened_keep(trimmed(lines[from]), 0, p);
        let rest = tidied_from(lines, from + 1);
        let all = tidied_from(lines, from);
        assert forall|j: int| 0 <= j < all.len() implies all_chars(#[trigger] all[j], p) by {
            if all.len() == rest.len() + 1 && j > 0 {
                assert(all[j] == rest[j - 1]);
            }
        }
    }
}

/// Squeezing lines adds no character.
pub proof fn lemma_squeezed_keep(lines: Seq<Seq<char>>, from: int, p: spec_fn(char) -> bool)
    requires
        all_lines(lines, p),
        0 <= from,
    ensures
        all_lines(squeezed_from(lines, from), p),
    decreases lines.len() - from,
{
    if from < lines.len() {
        lemma_blank_run_end_bounds(lines, from);
        let end = blank_run_end(lines, from);
        let next = if from + 3 <= end <= lines.len() {
            end
        } else {
            from + 1
        };
        lemma_squeezed_keep(lines, next, p);
        let rest = squeezed_from(lines, next);
        let all = squeezed_from(lines, from);
        assert forall|j: int| 0 <= j < all.len() implies all_chars(#[trigger] all[j], p) by {
            if j > 0 {
                assert(all[j] == rest[j - 1]);
            }
        }
    }
}

/// Putting the white space in order adds nothing but spaces and line feeds.
pub proof fn lemma_normalized_keeps(text: Seq<char>, p: spec_fn(char) -> bool)
    requires
        all_chars(text, p),
        p(' '),
        p('\n'),
    ensures
        all_chars(normalized(text), p),
{
    lemma_lines_keep(text, 0, p);
    lemma_tidied_keep(lines_of(text), 0, p);
    lemma_squeezed_keep(tidied_from(lines_of(text), 0), 0, p);
    lemma_joined_keeps(printed_lines(text), 0, p);
}

/// Whether three spaces or tabs stand one after another anywhere in the line.
pub open spec fn has_wide_gap(line: Seq<char>) -> bool {
    exists|i: int|
        0 <= i && i + 2 < line.len() && is_gap(#[trigger] line[i]) && is_gap(line[i + 1])
            && is_gap(line[i + 2])
}

proof fn lemma_gap_run_ends(line: Seq<char>, at: int)
    requires
        0 <= at <= line.len(),
    ensures
        gap_end(line, gap_end(line, at)) == gap_end(line, at),
    decreases line.len() - at,
{
    if at < line.len() && is_gap(line[at]) {
        lemma_gap_run_ends(line, at + 1);
    }
}

proof fn lemma_gaps_evened_start(line: Seq<char>, at: int)
    requires
        0 <= at <= line.len(),
    ensures
        !has_wide_gap(gaps_evened_from(line, at)),
        ({
            let run = gap_end(line, at) - at;
            let out = gaps_evened_from(line, at);
            &&& run == 0 ==> out.len() == 0 || !is_gap(out[0])
            &&& run == 1 ==> out.len() <= 1 || !is_gap(out[1])
            &&& run >= 2 ==> out.len() <= 2 || !is_gap(out[2])
        }),
    decreases line.len() - at,
{
    if at < line.len() {
        lemma_gap_end_bounds(line, at);
        let end = gap_end(line, at);
        let out = gaps_evened_from(line, at);
        if at + 2 <= end {
            lemma_gaps_evened_start(line, end);
            lemma_gap_end_bounds(line, end);
            let rest = gaps_evened_from(line, end);
            assert(out == seq![' ', ' '] + rest);
            assert(gap_end(line, end) == end) by {
                lemma_gap_run_ends(line, at);
            }
            assert forall|i: int| 2 <= i < out.len() implies #[trigger] out[i] == rest[i - 2] by {}
            if has_wide_gap(out) {
                let i = choose|i: int|
                    0 <= i && i + 2 < out.len() && is_gap(#[trigger] out[i]) && is_gap(out[i + 1])
                        && is_gap(out[i + 2]);
                if i >= 2 {
                    assert(rest[i - 2] == out[i]);
                    assert(rest[i - 1] == out[i + 1]);
                    assert(rest[i] == out[i + 2]);
                    assert(has_wide_gap(rest));
                } else {
                    assert(out[2] == rest[0]);
                }
                assert(false);
            }
        } else {
            lemma_gaps_evened_start(line, at + 1);
            lemma_gap_end_bounds(line, at + 1);
            let rest = gaps_evened_from(line, at + 1);
            assert(out == seq![line[at]] + rest);
            assert forall|i: int| 1 <= i < out.len() implies #[trigger] out[i] == rest[i - 1] by {}
            if has_wide_gap(out) {
                let i = choose|i: int|
                    0 <= i && i + 2 < out.len() && is_gap(#[trigger] out[i]) && is_gap(out[i + 1])
                        && is_gap(out[i + 2]);
                if i >= 1 {
                    assert(rest[i - 1] == out[i]);
                    assert(rest[i] == out[i + 1]);
                    assert(rest[i + 1] == out[i + 2]);
                    assert(has_wide_gap(rest));
                } else {
                    assert(out[1] == rest[0]);
                }
                assert(false);
            }
        }
    }
}

/// However wide the gaps of a line are, the line with its gaps evened never
/// holds three spaces or tabs in a row.
pub proof fn lemma_gaps_evened_have_no_wide_gap(line: Seq<char>)
    ensures
        !has_wide_gap(gaps_evened(line)),
{
    lemma_gaps_evened_start(line, 0);
}

/// Whether three empty lines stand one after another anywhere in the lines.
pub open spec fn has_long_blank_run(lines: Seq<Seq<char>>) -> bool {
    exists|i: int|
        0 <= i && i + 2 < lines.len() && (#[trigger] lines[i]).len() == 0 && lines[i + 1].len() == 0
            && lines[i + 2].len() == 0
}

/// The given number of empty lines.
pub open spec fn blank_lines(count: nat) -> Seq<Seq<char>> {
    Seq::new(count, |i: int| Seq::<char>::empty())
}

proof fn lemma_squeezed_start(lines: Seq<Seq<char>>, from: int)
    requires
        0 <= from <= lines.len(),
    ensures
        !has_long_blank_run(squeezed_from(lines, from)),
        ({
            let run = blank_run_end(lines, from) - from;
            let out = squeezed_from(lines, from);
            &&& run == 0 ==> out.len() == 0 || out[0].len() > 0
            &&& run == 1 || run >= 3 ==> out.len() <= 1 || out[1].len() > 0
            &&& run == 2 ==> out.len() <= 2 || out[2].len() > 0
        }),
    decreases lines.len() - from,
{
    if from < lines.len() {
        lemma_blank_run_end_bounds(lines, from);
        let end = blank_run_end(lines, from);
        let next = if from + 3 <= end {
            end
        } else {
            from + 1
        };
        lemma_squeezed_start(lines, next);
        lemma_blank_run_end_bounds(lines, next);
        let rest = squeezed_from(lines, next);
        let out = squeezed_from(lines, from);
        assert(out.len() == rest.len() + 1);
        assert forall|i: int| 0 < i < out.len() implies #[trigger] out[i] == rest[i - 1] by {}
        if from + 3 <= end {
            assert(blank_run_end(lines, end) == end);
        } else if from < end {
            assert(blank_run_end(lines, from + 1) == end);
        } else {
            assert(out[0] == lines[from]);
        }
        if has_long_blank_run(out) {
            let i = choose|i: int|
                0 <= i && i + 2 < out.len() && (#[trigger] out[i]).len() == 0 && out[i + 1].len()
                    == 0 && out[i + 2].len() == 0;
            if i > 0 {
                assert(rest[i - 1] == out[i]);
                assert(rest[i] == out[i + 1]);
                assert(rest[i + 1] == out[i + 2]);
                assert(has_long_blank_run(rest));
            } else {
                assert(rest[0] == out[1]);
                assert(rest[1] == out[2]);
            }
            assert(false);
        }
    }
}

/// However many empty lines follow one another in a text, the lines that are
/// printed for it never hold three empty lines in a row.
pub proof fn lemma_printed_lines_have_no_long_blank_run(text: Seq<char>)
    ensures
        !has_long_blank_run(printed_lines(text)),
{
    lemma_squeezed_start(tidied_from(lines_of(text), 0), 0);
}

proof fn lemma_blank_run_in_front(front: Seq<Seq<char>>, back: Seq<Seq<char>>, at: int)
    requires
        0 <= at < front.len(),
        front.last().len() > 0,
    ensures
        blank_run_end(front + back, at) == blank_run_end(front, at),
        blank_run_end(front, at) < front.len(),
    decreases front.len() - at,
{
    let all = front + back;
    assert(all[at] == front[at]);
    if front[at].len() == 0 {
        lemma_blank_run_in_front(front, back, at + 1);
    }
}

proof fn lemma_blank_run_in_back(front: Seq<Seq<char>>, back: Seq<Seq<char>>, at: int)
    requires
        0 <= at <= back.len(),
    ensures
        blank_run_end(front + back, front.len() + at) == front.len() + blank_run_end(back, at),
    decreases back.len() - at,
{
    let all = front + back;
    if at < back.len() {
        assert(all[front.len() + at] == back[at]);
        if back[at].len() == 0 {
            lemma_blank_run_in_back(front, back, at + 1);
        }
    }
}

proof fn lemma_squeezed_in_front(front: Seq<Seq<char>>, back: Seq<Seq<char>>, at: int)
    requires
        0 <= at <= front.len(),
        front.len() == 0 || front.last().len() > 0,
    ensures
        squeezed_from(front + back, at) == squeezed_from(front, at) + squeezed_from(
            front + back,
            front.len() as int,
        ),
    decreases front.len() - at,
{
    let all = front + back;
    if at < front.len() {
        lemma_blank_run_in_front(front, back, at);
        lemma_blank_run_end_bounds(front, at);
        let end = blank_run_end(front, at);
        assert(all[at] == front[at]);
        if at + 3 <= end {
            lemma_squeezed_in_front(front, back, end);
        } else {
            lemma_squeezed_in_front(front, back, at + 1);
        }
    }
}

proof fn lemma_squeezed_in_back(front: Seq<Seq<char>>, back: Seq<Seq<char>>, at: int)
    requires
        0 <= at <= back.len(),
    ensures
        squeezed_from(front + back, front.len() + at) == squeezed_from(back, at),
    decreases back.len() - at,
{
    let all = front + back;
    if at < back.len() {
        lemma_blank_run_in_back(front, back, at);
        lemma_blank_run_end_bounds(back, at);
        let end = blank_run_end(back, at);
        assert(all[front.len() + at] == back[at]);
        if at + 3 <= end {
            lemma_squeezed_in_back(front, back, end);
        } else {
            lemma_squeezed_in_back(front, back, at + 1);
        }
    }
}

proof fn lemma_blank_run_of_blank_lines(count: nat, after: Seq<Seq<char>>, at: int)
    requires
        0 <= at <= count,
        after.len() == 0 || after[0].len() > 0,
    ensures
        blank_run_end(blank_lines(count) + after, at) == count,
    decreases count - at,
{
    let all = blank_lines(count) + after;
    if at < count {
        assert(all[at] == blank_lines(count)[at]);
        lemma_blank_run_of_blank_lines(count, after, at + 1);
    } else if after.len() > 0 {
        assert(all[at] == after[0]);
    }
}

/// Three or more empty lines between two lines that are not empty come out
/// as exactly one empty line, and what stands before and after them comes out
/// as it would by itself.
pub proof fn lemma_long_blank_run_becomes_one_line(
    before: Seq<Seq<char>>,
    count: nat,
    after: Seq<Seq<char>>,
)
    requires
        count >= 3,
        before.len() == 0 || before.last().len() > 0,
        after.len() == 0 || after[0].len() > 0,
    ensures
        squeezed_from(before + blank_lines(count) + after, 0) == squeezed_from(before, 0)
            + seq![Seq::<char>::empty()] + squeezed_from(after, 0),
{
    let middle = blank_lines(count) + after;
    let all = before + blank_lines(count) + after;
    assert(all == before + middle);
    lemma_squeezed_in_front(before, middle, 0);
    lemma_squeezed_in_back(before, middle, 0);
    lemma_blank_run_of_blank_lines(count, after, 0);
    lemma_squeezed_in_back(blank_lines(count), after, 0);
    assert(middle.len() == count + after.len());
    assert(squeezed_from(middle, 0) == seq![Seq::<char>::empty()] + squeezed_from(
        middle,
        count as int,
    ));
}

/// Every line that is left after the squeezing is empty or one of the lines
/// that went in.
pub proof fn lemma_squeezed_line(lines: Seq<Seq<char>>, from: int, m: int) -> (j: int)
    requires
        0 <= from,
        0 <= m < squeezed_from(lines, from).len(),
    ensures
        squeezed_from(lines, from)[m].len() == 0 || (from <= j < lines.len() && squeezed_from(
            lines,
            from,
        )[m] == lines[j]),
    decreases lines.len() - from,
{
    lemma_blank_run_end_bounds(lines, from);
    let end = blank_run_end(lines, from);
    let next = if from + 3 <= end <= lines.len() {
        end
    } else {
        from + 1
    };
    let out = squeezed_from(lines, from);
    let rest = squeezed_from(lines, next);
    if m == 0 {
        from
    } else {
        assert(out[m] == rest[m - 1]);
        lemma_squeezed_line(lines, next, m - 1)
    }
}

/// Every line that is left after the tidying is one of the lines that went
/// in, trimmed and with its gaps evened.
pub proof fn lemma_tidied_line(lines: Seq<Seq<char>>, from: int, m: int) -> (j: int)
    requires
        0 <= from,
        0 <= m < tidied_from(lines, from).len(),
    ensures
        from <= j < lines.len(),
        tidied_from(lines, from)[m] == gaps_evened(trimmed(lines[j])),
    decreases lines.len() - from,
{
    let out = tidied_from(lines, from);
    let rest = tidied_from(lines, from + 1);
    if looks_like_css(trimmed(lines[from])) {
        lemma_tidied_line(lines, from + 1, m)
    } else if m == 0 {
        from
    } else {
        assert(out[m] == rest[m - 1]);
        lemma_tidied_line(lines, from + 1, m - 1)
    }
}

proof fn lemma_solid_prefix(line: Seq<char>, at: int, pat: Seq<char>, done: int, fold: bool)
    requires
        0 <= at <= line.len(),
        0 <= done <= pat.len(),
        is_solid(pat),
        gaps_evened_from(line, at).len() >= pat.len() - done,
        forall|j: int|
            done <= j < pat.len() ==> same(
                gaps_evened_from(line, at)[j - done],
                #[trigger] pat[j],
                fold,
            ),
    ensures
        at + pat.len() - done <= line.len(),
        forall|j: int| done <= j < pat.len() ==> same(line[at + j - done], #[trigger] pat[j], fold),
    decreases pat.len() - done,
{
    if done < pat.len() {
        let out = gaps_evened_from(line, at);
        lemma_gap_end_bounds(line, at);
        let end = gap_end(line, at);
        assert(same(out[0], pat[done], fold));
        if at + 2 <= end <= line.len() {
            assert(out[0] == ' ');
            assert(false);
        } else {
            let rest = gaps_evened_from(line, at + 1);
            assert(out == seq![line[at]] + rest);
            assert forall|j: int| done + 1 <= j < pat.len() implies same(
                rest[j - (done + 1)],
                #[trigger] pat[j],
                fold,
            ) by {
                assert(out[j - done] == rest[j - (done + 1)]);
            }
            lemma_solid_prefix(line, at + 1, pat, done + 1, fold);
        }
    }
}

/// A solid pattern that stands in a line whose gaps were evened stands in
/// the line as it was.
pub proof fn lemma_match_in_gaps_evened(
    line: Seq<char>,
    at: int,
    p: int,
    pat: Seq<char>,
    fold: bool,
) -> (q: int)
    requires
        0 <= at,
        is_solid(pat),
        matches_at(gaps_evened_from(line, at), p, pat, fold),
    ensures
        matches_at(line, q, pat, fold),
    decreases line.len() - at,
{
    let out = gaps_evened_from(line, at);
    lemma_gap_end_bounds(line, at);
    let end = gap_end(line, at);
    if at + 2 <= end <= line.len() {
        let rest = gaps_evened_from(line, end);
        assert(out == seq![' ', ' '] + rest);
        if p < 2 {
            assert(same(out[p + 0], pat[0], fold));
            assert(false);
            0
        } else {
            assert forall|j: int| 0 <= j < pat.len() implies same(
                rest[p - 2 + j],
                #[trigger] pat[j],
                fold,
            ) by {
                assert(out[p + j] == rest[p - 2 + j]);
            }
            lemma_match_in_gaps_evened(line, end, p - 2, pat, fold)
        }
    } else {
        let rest = gaps_evened_from(line, at + 1);
        assert(out == seq![line[at]] + rest);
        if p == 0 {
            assert forall|j: int| 0 <= j < pat.len() implies same(
                out[j - 0],
                #[trigger] pat[j],
                fold,
            ) by {
                assert(same(out[0 + j], pat[j], fold));
            }
            lemma_solid_prefix(line, at, pat, 0, fold);
            at
        } else {
            assert forall|j: int| 0 <= j < pat.len() implies same(
                rest[p - 1 + j],
                #[trigger] pat[j],
                fold,
            ) by {
                assert(out[p + j] == rest[p - 1 + j]);
            }
            lemma_match_in_gaps_evened(line, at + 1, p - 1, pat, fold)
        }
    }
}

/// Putting the white space in order moves nothing together: a solid pattern
/// that stands in the text afterwards stood in it before.
pub proof fn lemma_match_in_normalized(text: Seq<char>, p: int, pat: Seq<char>, fold: bool) -> (q:
    int)
    requires
        is_solid(pat),
        matches_at(normalized(text), p, pat, fold),
    ensures
        matches_at(text, q, pat, fold),
{
    let lines = lines_of(text);
    let tidied = tidied_from(lines, 0);
    let squeezed = squeezed_from(tidied, 0);
    let (m, at) = lemma_match_in_joined(squeezed, 0, p, pat, fold);
    let t = lemma_squeezed_line(tidied, 0, m);
    assert(squeezed[m].len() > 0);
    let l = lemma_tidied_line(lines, 0, t);
    let in_trimmed = lemma_match_in_gaps_evened(trimmed(lines[l]), 0, at, pat, fold);
    lemma_skip_spaces_bounds(lines[l], 0);
    let start = skip_spaces(lines[l], 0);
    lemma_drop_spaces_bounds(lines[l], start, lines[l].len() as int);
    let end = drop_spaces(lines[l], start, lines[l].len() as int);
    lemma_match_in_part(lines[l], start, end, in_trimmed, pat, fold);
    let (a, b) = lemma_line_is_part(text, 0, l);
    lemma_match_in_part(text, a, b, start + in_trimmed, pat, fold);
    a + start + in_trimmed
}

} // verus!
