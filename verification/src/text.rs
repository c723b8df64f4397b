//! Character-level building blocks shared by the text-processing modules.
//!
//! Text is modelled as `Seq<char>`; the executable functions work on
//! `Vec<char>` so that every position can be reached in constant time.

use vstd::prelude::*;

verus! {

/// `String::push` appends one character to the end of the string.
pub assume_specification[ String::push ](s: &mut String, c: char)
    ensures
        final(s)@ == old(s)@.push(c),
;

/// ASCII lower-casing of one character; every other character is left alone.
pub open spec fn lower(c: char) -> char {
    if 'A' <= c && c <= 'Z' {
        ((c as u8) + 32) as char
    } else {
        c
    }
}

/// Whether two characters count as the same, with or without ASCII case folding.
pub open spec fn same(a: char, b: char, fold: bool) -> bool {
    if fold {
        lower(a) == lower(b)
    } else {
        a == b
    }
}

/// The Unicode `White_Space` characters.
pub open spec fn is_space(c: char) -> bool {
    ||| ('\u{9}' <= c && c <= '\u{d}')
    ||| c == ' '
    ||| c == '\u{85}'
    ||| c == '\u{a0}'
    ||| c == '\u{1680}'
    ||| ('\u{2000}' <= c && c <= '\u{200a}')
    ||| c == '\u{2028}'
    ||| c == '\u{2029}'
    ||| c == '\u{202f}'
    ||| c == '\u{205f}'
    ||| c == '\u{3000}'
}

/// A space or a tab: the characters that make up column gaps.
pub open spec fn is_gap(c: char) -> bool {
    c == ' ' || c == '\t'
}

/// `pat` stands in `text` at position `at`.
pub open spec fn matches_at(text: Seq<char>, at: int, pat: Seq<char>, fold: bool) -> bool {
    &&& 0 <= at
    &&& at + pat.len() <= text.len()
    &&& forall|j: int| 0 <= j < pat.len() ==> same(text[at + j], #[trigger] pat[j], fold)
}

/// `pat` stands somewhere in `text`.
pub open spec fn contains(text: Seq<char>, pat: Seq<char>, fold: bool) -> bool {
    exists|at: int| matches_at(text, at, pat, fold)
}

/// The first position at or after `from` where `pat` stands in `text`.
pub open spec fn first_match(text: Seq<char>, from: int, pat: Seq<char>, fold: bool) -> Option<int>
    decreases text.len() - from,
{
    if from < 0 || from + pat.len() > text.len() {
        None
    } else if matches_at(text, from, pat, fold) {
        Some(from)
    } else {
        first_match(text, from + 1, pat, fold)
    }
}

/// The first position at or after `from` that holds the character `c`.
pub open spec fn first_char(text: Seq<char>, from: int, c: char) -> Option<int>
    decreases text.len() - from,
{
    if from < 0 || from >= text.len() {
        None
    } else if text[from] == c {
        Some(from)
    } else {
        first_char(text, from + 1, c)
    }
}

/// The first position at or after `from` that holds no white space.
pub open spec fn skip_spaces(text: Seq<char>, from: int) -> int
    decreases text.len() - from,
{
    if 0 <= from < text.len() && is_space(text[from]) {
        skip_spaces(text, from + 1)
    } else {
        from
    }
}

/// The end of the text before `to` once trailing white space is cut, never below `floor`.
pub open spec fn drop_spaces(text: Seq<char>, floor: int, to: int) -> int
    decreases to,
{
    if floor < to <= text.len() && 0 < to && is_space(text[to - 1]) {
        drop_spaces(text, floor, to - 1)
    } else {
        to
    }
}

/// The text without leading and trailing white space.
pub open spec fn trimmed(text: Seq<char>) -> Seq<char> {
    let start = skip_spaces(text, 0);
    let end = drop_spaces(text, start, text.len() as int);
    text.subrange(start, end)
}

/// The lines of a text from position `from` on: the pieces between line feeds.
pub open spec fn lines_from(text: Seq<char>, from: int) -> Seq<Seq<char>>
    decreases text.len() - from,
{
    if from < 0 || from > text.len() {
        Seq::empty()
    } else {
        match first_char(text, from, '\n') {
            Some(at) => if from <= at < text.len() {
                seq![text.subrange(from, at)] + lines_from(text, at + 1)
            } else {
                Seq::empty()
            },
            None => seq![text.subrange(from, text.len() as int)],
        }
    }
}

/// The lines of a text. A text without a line feed is one line; the empty text is one empty line.
pub open spec fn lines_of(text: Seq<char>) -> Seq<Seq<char>> {
    lines_from(text, 0)
}

/// The lines from index `from` on, written one after another with a line feed between them.
pub open spec fn joined_from(lines: Seq<Seq<char>>, from: int) -> Seq<char>
    decreases lines.len() - from,
{
    if from < 0 || from >= lines.len() {
        Seq::empty()
    } else if from == lines.len() - 1 {
        lines[from]
    } else {
        lines[from] + seq!['\n'] + joined_from(lines, from + 1)
    }
}

/// The lines written one after another with a line feed between them.
pub open spec fn joined(lines: Seq<Seq<char>>) -> Seq<char> {
    joined_from(lines, 0)
}

/// The contents of each row of a table of characters.
pub open spec fn rows(table: Seq<Vec<char>>) -> Seq<Seq<char>> {
    table.map_values(|row: Vec<char>| row@)
}

/// What `first_match` finds is a match, and the first one at or after `from`;
/// where it finds none, there is none.
pub proof fn lemma_first_match_is_first(text: Seq<char>, from: int, pat: Seq<char>, fold: bool)
    requires
        0 <= from,
    ensures
        match first_match(text, from, pat, fold) {
            Some(at) => from <= at && matches_at(text, at, pat, fold) && forall|k: int|
                from <= k < at ==> !matches_at(text, k, pat, fold),
            None => forall|k: int| from <= k ==> !matches_at(text, k, pat, fold),
        },
    decreases text.len() - from,
{
    if from + pat.len() > text.len() {
    } else if matches_at(text, from, pat, fold) {
    } else {
        lemma_first_match_is_first(text, from + 1, pat, fold);
    }
}

/// What `first_char` finds holds the character, and is the first position at
/// or after `from` that does; where it finds none, there is none.
pub proof fn lemma_first_char_is_first(text: Seq<char>, from: int, c: char)
    requires
        0 <= from,
    ensures
        match first_char(text, from, c) {
            Some(at) => from <= at < text.len() && text[at] == c && forall|k: int|
                from <= k < at ==> text[k] != c,
            None => forall|k: int| from <= k < text.len() ==> text[k] != c,
        },
    decreases text.len() - from,
{
    if from >= text.len() {
    } else if text[from] == c {
    } else {
        lemma_first_char_is_first(text, from + 1, c);
    }
}

/// `skip_spaces` passes over white space only, and stops at the first
/// character that is none.
pub proof fn lemma_skip_spaces_bounds(text: Seq<char>, from: int)
    requires
        0 <= from <= text.len(),
    ensures
        from <= skip_spaces(text, from) <= text.len(),
        forall|k: int| from <= k < skip_spaces(text, from) ==> is_space(text[k]),
        skip_spaces(text, from) < text.len() ==> !is_space(text[skip_spaces(text, from)]),
    decreases text.len() - from,
{
    if from < text.len() && is_space(text[from]) {
        lemma_skip_spaces_bounds(text, from + 1);
    }
}

/// `drop_spaces` cuts white space only, and stops behind the last character
/// that is none.
pub proof fn lemma_drop_spaces_bounds(text: Seq<char>, floor: int, to: int)
    requires
        0 <= floor <= to <= text.len(),
    ensures
        floor <= drop_spaces(text, floor, to) <= to,
        forall|k: int| drop_spaces(text, floor, to) <= k < to ==> is_space(text[k]),
        floor < drop_spaces(text, floor, to) ==> !is_space(text[drop_spaces(text, floor, to) - 1]),
    decreases to,
{
    if floor < to && is_space(text[to - 1]) {
        lemma_drop_spaces_bounds(text, floor, to - 1);
    }
}

/// The character in lower case, if it is an ASCII capital.
pub fn to_lower(c: char) -> (r: char)
    ensures
        r == lower(c),
{
    if 'A' <= c && c <= 'Z' {
        ((c as u8) + 32) as char
    } else {
        c
    }
}

/// Whether two characters count as the same.
pub fn same_char(a: char, b: char, fold: bool) -> (r: bool)
    ensures
        r == same(a, b, fold),
{
    if fold {
        to_lower(a) == to_lower(b)
    } else {
        a == b
    }
}

/// Whether the character is white space.
pub fn is_whitespace(c: char) -> (r: bool)
    ensures
        r == is_space(c),
{
    ('\u{9}' <= c && c <= '\u{d}') || c == ' ' || c == '\u{85}' || c == '\u{a0}' || c == '\u{1680}'
        || ('\u{2000}' <= c && c <= '\u{200a}') || c == '\u{2028}' || c == '\u{2029}' || c
        == '\u{202f}' || c == '\u{205f}' || c == '\u{3000}'
}

/// The characters of a string, one per element.
pub fn chars_of(s: &str) -> (v: Vec<char>)
    ensures
        v@ == s@,
{
    let mut v: Vec<char> = Vec::new();
    for c in it: s.chars()
        invariant
            it.seq() == s@,
            v@ == it.seq().take(it.index()),
    {
        v.push(c);
    }
    v
}

/// The string made of the given characters.
pub fn string_of(v: &Vec<char>) -> (s: String)
    ensures
        s@ == v@,
{
    let mut s = String::new();
    let mut i: usize = 0;
    while i < v.len()
        invariant
            i <= v.len(),
            s@ == v@.take(i as int),
        decreases v.len() - i,
    {
        s.push(v[i]);
        i += 1;
    }
    s
}

/// Appends the characters `more[from..to]` to `out`.
pub(crate) fn push_range(out: &mut Vec<char>, more: &Vec<char>, from: usize, to: usize)
    requires
        from <= to <= more.len(),
    ensures
        final(out)@ == old(out)@ + more@.subrange(from as int, to as int),
{
    let mut i: usize = from;
    while i < to
        invariant
            from <= i <= to <= more.len(),
            out@ == old(out)@ + more@.subrange(from as int, i as int),
        decreases to - i,
    {
        out.push(more[i]);
        i += 1;
    }
}

/// Appends all of `more` to `out`.
pub fn push_all(out: &mut Vec<char>, more: &Vec<char>)
    ensures
        final(out)@ == old(out)@ + more@,
{
    push_range(out, more, 0, more.len());
    assert(more@.subrange(0, more.len() as int) == more@);
}

/// A copy of `text[from..to]`.
pub(crate) fn slice(text: &Vec<char>, from: usize, to: usize) -> (r: Vec<char>)
    requires
        from <= to <= text.len(),
    ensures
        r@ == text@.subrange(from as int, to as int),
{
    let mut r: Vec<char> = Vec::new();
    push_range(&mut r, text, from, to);
    r
}

/// Whether `pat` stands in `text` at position `at`.
pub fn has_at(text: &Vec<char>, at: usize, pat: &Vec<char>, fold: bool) -> (r: bool)
    ensures
        r == matches_at(text@, at as int, pat@, fold),
        r ==> at + pat.len() <= text.len() <= usize::MAX,
{
    if pat.len() > text.len() || at > text.len() - pat.len() {
        return false;
    }
    let mut j: usize = 0;
    while j < pat.len()
        invariant
            j <= pat.len(),
            at + pat.len() <= text.len(),
            forall|k: int| 0 <= k < j ==> same(text@[at + k], #[trigger] pat@[k], fold),
        decreases pat.len() - j,
    {
        if !same_char(text[at + j], pat[j], fold) {
            return false;
        }
        j += 1;
    }
    true
}

/// The first position at or after `from` where `pat` stands in `text`.
pub fn find(text: &Vec<char>, from: usize, pat: &Vec<char>, fold: bool) -> (r: Option<usize>)
    ensures
        match r {
            Some(at) => {
                &&& first_match(text@, from as int, pat@, fold) == Some(at as int)
                &&& from <= at
                &&& at + pat.len() <= text.len() <= usize::MAX
            },
            None => first_match(text@, from as int, pat@, fold).is_none(),
        },
{
    if pat.len() > text.len() {
        return None;
    }
    let last: usize = text.len() - pat.len();
    let mut i: usize = from;
    while i <= last
        invariant
            from <= i,
            last == text.len() - pat.len(),
            first_match(text@, from as int, pat@, fold) == first_match(text@, i as int, pat@, fold),
        decreases last + 1 - i,
    {
        if has_at(text, i, pat, fold) {
            return Some(i);
        }
        i += 1;
    }
    None
}

/// The first position at or after `from` that holds the character `c`.
pub fn find_char(text: &Vec<char>, from: usize, c: char) -> (r: Option<usize>)
    ensures
        match r {
            Some(at) => {
                &&& first_char(text@, from as int, c) == Some(at as int)
                &&& from <= at < text.len() <= usize::MAX
                &&& text@[at as int] == c
            },
            None => first_char(text@, from as int, c).is_none(),
        },
{
    let mut i: usize = from;
    while i < text.len()
        invariant
            from <= i,
            first_char(text@, from as int, c) == first_char(text@, i as int, c),
        decreases text.len() - i,
    {
        if text[i] == c {
            return Some(i);
        }
        i += 1;
    }
    None
}

/// The text without leading and trailing white space.
pub fn trim(text: &Vec<char>) -> (r: Vec<char>)
    ensures
        r@ == trimmed(text@),
{
    let mut start: usize = 0;
    while start < text.len() && is_whitespace(text[start])
        invariant
            start <= text.len(),
            skip_spaces(text@, 0) == skip_spaces(text@, start as int),
        decreases text.len() - start,
    {
        start += 1;
    }
    let mut end: usize = text.len();
    while start < end && is_whitespace(text[end - 1])
        invariant
            start <= end <= text.len(),
            drop_spaces(text@, start as int, text.len() as int) == drop_spaces(
                text@,
                start as int,
                end as int,
            ),
        decreases end,
    {
        end -= 1;
    }
    slice(text, start, end)
}

/// The lines of a text: the pieces between line feeds.
pub fn split_lines(text: &Vec<char>) -> (r: Vec<Vec<char>>)
    ensures
        rows(r@) == lines_of(text@),
{
    let mut r: Vec<Vec<char>> = Vec::new();
    let mut from: usize = 0;
    loop
        invariant
            from <= text.len(),
            lines_of(text@) == rows(r@) + lines_from(text@, from as int),
        decreases text.len() - from,
    {
        match find_char(text, from, '\n') {
            Some(at) => {
                proof {
                    lemma_first_char_is_first(text@, from as int, '\n');
                }
                let line = slice(text, from, at);
                let ghost before = rows(r@);
                r.push(line);
                assert(rows(r@) == before.push(line@));
                from = at + 1;
            },
            None => {
                let line = slice(text, from, text.len());
                let ghost before = rows(r@);
                r.push(line);
                assert(rows(r@) == before.push(line@));
                return r;
            },
        }
    }
}

/// The lines written one after another with a line feed between them.
pub fn join_lines(lines: &Vec<Vec<char>>) -> (r: Vec<char>)
    ensures
        r@ == joined(rows(lines@)),
{
    let mut r: Vec<char> = Vec::new();
    let mut i: usize = 0;
    while i < lines.len()
        invariant
            i <= lines.len(),
            joined(rows(lines@)) == r@ + joined_from(rows(lines@), i as int),
        decreases lines.len() - i,
    {
        push_all(&mut r, &lines[i]);
        if i + 1 < lines.len() {
            r.push('\n');
        }
        i += 1;
    }
    r
}

} // verus!
