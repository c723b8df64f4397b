//! The markup text extractor: from a bill written as markup to the plain text
//! that a dot-matrix printer can take.
//!
//! The work is done in stages, each with a model of its own:
//!
//! 1. script blocks, style blocks and comments are cut out, content included;
//! 2. a `<pre>` element, where there is one, is the receipt as it stands;
//! 3. otherwise the `<body>` element, or else the whole document, is taken,
//! 4. layout tags become line feeds, separator lines and column gaps,
//! 5. every other tag is dropped,
//! 6. entities are decoded,
//! 7. lines are tidied and runs of blank lines are squeezed;
//! 8. padding is added so that the printer feeds the receipt out.

use crate::rules::{entity_rules, entity_table, rewrite, rewritten, tag_rules, tag_table};
use crate::text::{
    chars_of, find, find_char, first_char, first_match, has_at, is_gap, join_lines, joined,
    lemma_first_char_is_first, lemma_first_match_is_first, lines_of, matches_at, push_all,
    push_range, rows, slice, split_lines, string_of, trim, trimmed,
};
use vstd::prelude::*;

verus! {

/// Where the element that opens before `from` ends: behind the first `closer`
/// at or after `from`, or at the end of the text where it is never closed.
pub open spec fn closed_at(text: Seq<char>, from: int, closer: Seq<char>) -> int {
    match first_match(text, from, closer, true) {
        Some(at) => at + closer.len(),
        None => text.len() as int,
    }
}

/// Where the block that opens at `at` ends, if a script block, a style block
/// or a comment opens there. Tag names are matched without regard to case.
pub open spec fn block_end(text: Seq<char>, at: int) -> Option<int> {
    if matches_at(text, at, "<script"@, true) {
        Some(closed_at(text, at + "<script"@.len(), "</script>"@))
    } else if matches_at(text, at, "<style"@, true) {
        Some(closed_at(text, at + "<style"@.len(), "</style>"@))
    } else if matches_at(text, at, "<!--"@, true) {
        Some(closed_at(text, at + "<!--"@.len(), "-->"@))
    } else {
        None
    }
}

/// The leftmost block that opens at or after `from`, as its start and its end.
pub open spec fn first_block(text: Seq<char>, from: int) -> Option<(int, int)>
    decreases text.len() - from,
{
    if from < 0 || from >= text.len() {
        None
    } else {
        match block_end(text, from) {
            Some(end) => Some((from, end)),
            None => first_block(text, from + 1),
        }
    }
}

/// The text with its leftmost block cut out, again and again until no block
/// opens anywhere: what two cuts leave side by side is looked at anew.
pub open spec fn without_blocks(text: Seq<char>) -> Seq<char>
    decreases text.len(),
{
    match first_block(text, 0) {
        Some((start, end)) => if 0 <= start < end <= text.len() {
            without_blocks(text.subrange(0, start) + text.subrange(end, text.len() as int))
        } else {
            text
        },
        None => text,
    }
}

/// Whether a script block, a style block or a comment opens anywhere in the text.
pub open spec fn opens_block(text: Seq<char>) -> bool {
    exists|at: int| 0 <= at < text.len() && (#[trigger] block_end(text, at)).is_some()
}

/// The content of the first element whose opening tag begins with `open`, as
/// the positions where it starts and ends. The content starts behind the `>`
/// that ends the opening tag and runs to the first `close`; a tag or an
/// element that is never closed runs to the end of the text.
pub open spec fn element_content(text: Seq<char>, open: Seq<char>, close: Seq<char>) -> Option<
    (int, int),
> {
    match first_match(text, 0, open, true) {
        Some(tag) => {
            let start = match first_char(text, tag + open.len(), '>') {
                Some(gt) => gt + 1,
                None => text.len() as int,
            };
            let end = match first_match(text, start, close, true) {
                Some(at) => at,
                None => text.len() as int,
            };
            Some((start, end))
        },
        None => None,
    }
}

/// The text from `at` on without its tags: whatever stands from a `<` through
/// the next `>` is dropped, and a `<` that is never closed takes the rest.
pub open spec fn without_tags_from(text: Seq<char>, at: int) -> Seq<char>
    decreases text.len() - at,
{
    if at < 0 || at >= text.len() {
        Seq::empty()
    } else if text[at] == '<' {
        match first_char(text, at + 1, '>') {
            Some(gt) => if at < gt < text.len() {
                without_tags_from(text, gt + 1)
            } else {
                Seq::empty()
            },
            None => Seq::empty(),
        }
    } else {
        seq![text[at]] + without_tags_from(text, at + 1)
    }
}

/// The text without its tags.
pub open spec fn without_tags(text: Seq<char>) -> Seq<char> {
    without_tags_from(text, 0)
}

/// Where the run of spaces and tabs that holds position `at` ends.
pub open spec fn gap_end(line: Seq<char>, at: int) -> int
    decreases line.len() - at,
{
    if 0 <= at < line.len() && is_gap(line[at]) {
        gap_end(line, at + 1)
    } else {
        at
    }
}

/// The line from `at` on with each run of two or more spaces and tabs
/// written as exactly two spaces. A single space or tab stays as it is.
pub open spec fn gaps_evened_from(line: Seq<char>, at: int) -> Seq<char>
    decreases line.len() - at,
{
    if at < 0 || at >= line.len() {
        Seq::empty()
    } else {
        let end = gap_end(line, at);
        if at + 2 <= end <= line.len() {
            seq![' ', ' '] + gaps_evened_from(line, end)
        } else {
            seq![line[at]] + gaps_evened_from(line, at + 1)
        }
    }
}

/// The line with each run of two or more spaces and tabs written as two spaces.
pub open spec fn gaps_evened(line: Seq<char>) -> Seq<char> {
    gaps_evened_from(line, 0)
}

/// A line that looks like a stray style rule: it holds a brace or starts with `@`.
pub open spec fn looks_like_css(line: Seq<char>) -> bool {
    line.contains('{') || line.contains('}') || (line.len() > 0 && line[0] == '@')
}

/// The lines from index `from` on, each trimmed and with its gaps evened;
/// a line that looks like a stray style rule once trimmed is left out.
pub open spec fn tidied_from(lines: Seq<Seq<char>>, from: int) -> Seq<Seq<char>>
    decreases lines.len() - from,
{
    if from < 0 || from >= lines.len() {
        Seq::empty()
    } else {
        let line = trimmed(lines[from]);
        if looks_like_css(line) {
            tidied_from(lines, from + 1)
        } else {
            seq![gaps_evened(line)] + tidied_from(lines, from + 1)
        }
    }
}

/// Where the run of empty lines that holds index `at` ends.
pub open spec fn blank_run_end(lines: Seq<Seq<char>>, at: int) -> int
    decreases lines.len() - at,
{
    if 0 <= at < lines.len() && lines[at].len() == 0 {
        blank_run_end(lines, at + 1)
    } else {
        at
    }
}

/// The lines from index `from` on with each run of three or more empty
/// lines written as one empty line. Shorter runs stay as they are.
pub open spec fn squeezed_from(lines: Seq<Seq<char>>, from: int) -> Seq<Seq<char>>
    decreases lines.len() - from,
{
    if from < 0 || from >= lines.len() {
        Seq::empty()
    } else {
        let end = blank_run_end(lines, from);
        if from + 3 <= end <= lines.len() {
            seq![Seq::<char>::empty()] + squeezed_from(lines, end)
        } else {
            seq![lines[from]] + squeezed_from(lines, from + 1)
        }
    }
}

/// The lines that are printed for a text: tidied, then squeezed.
pub open spec fn printed_lines(text: Seq<char>) -> Seq<Seq<char>> {
    squeezed_from(tidied_from(lines_of(text), 0), 0)
}

/// The text with its white space put in order.
pub open spec fn normalized(text: Seq<char>) -> Seq<char> {
    joined(printed_lines(text))
}

/// What follows every receipt: blank lines and a form feed, so that the
/// printer feeds the paper past the tear bar.
pub open spec fn padding() -> Seq<char> {
    "\n\n\n\n\n\n\u{c}"@
}

/// The part of the cleaned document that the receipt is read from when it
/// holds no `<pre>` element: the body element, or else all of it.
pub open spec fn body_region(clean: Seq<char>) -> Seq<char> {
    match element_content(clean, "<body"@, "</body>"@) {
        Some((start, end)) => clean.subrange(start, end),
        None => clean,
    }
}

/// Whether the receipt is read from a `<pre>` element: whether one opens in
/// the markup once its blocks are cut out.
pub open spec fn has_pre(markup: Seq<char>) -> bool {
    element_content(without_blocks(markup), "<pre"@, "</pre>"@).is_some()
}

/// The text that the receipt is read from, with its entities still to be
/// decoded: the content of the first `<pre>` element as it stands or, where
/// there is none, the body with its layout tags turned into text and every
/// other tag dropped.
pub open spec fn receipt_source(markup: Seq<char>) -> Seq<char> {
    let clean = without_blocks(markup);
    match element_content(clean, "<pre"@, "</pre>"@) {
        Some((start, end)) => clean.subrange(start, end),
        None => without_tags(rewritten(body_region(clean), tag_rules(), true)),
    }
}

/// The receipt without its padding: the source with its entities decoded;
/// what came from a `<pre>` element has the white space around it cut, and
/// anything else has its white space put in order.
pub open spec fn receipt_body(markup: Seq<char>) -> Seq<char> {
    let decoded = rewritten(receipt_source(markup), entity_rules(), false);
    if has_pre(markup) {
        trimmed(decoded)
    } else {
        normalized(decoded)
    }
}

/// The plain text that is printed for a bill given as markup.
pub open spec fn extract_text(markup: Seq<char>) -> Seq<char> {
    receipt_body(markup) + padding()
}

/// An element ends at or after the place from which its end is looked for.
pub proof fn lemma_closed_at_bounds(text: Seq<char>, from: int, closer: Seq<char>)
    requires
        0 <= from <= text.len(),
    ensures
        from <= closed_at(text, from, closer) <= text.len(),
{
    lemma_first_match_is_first(text, from, closer, true);
}

/// A block is not empty and ends within the text.
pub proof fn lemma_block_end_bounds(text: Seq<char>, at: int)
    ensures
        block_end(text, at) matches Some(end) ==> 0 <= at < end <= text.len(),
{
    reveal_strlit("<script");
    reveal_strlit("<style");
    reveal_strlit("<!--");
    if matches_at(text, at, "<script"@, true) {
        lemma_closed_at_bounds(text, at + "<script"@.len(), "</script>"@);
    } else if matches_at(text, at, "<style"@, true) {
        lemma_closed_at_bounds(text, at + "<style"@.len(), "</style>"@);
    } else if matches_at(text, at, "<!--"@, true) {
        lemma_closed_at_bounds(text, at + "<!--"@.len(), "-->"@);
    }
}

/// What `first_block` finds is a block, and the leftmost one at or after
/// `from`; where it finds none, no block opens from there on.
pub proof fn lemma_first_block_is_first(text: Seq<char>, from: int)
    requires
        0 <= from,
    ensures
        match first_block(text, from) {
            Some((start, end)) => {
                &&& from <= start < end <= text.len()
                &&& block_end(text, start) == Some(end)
                &&& forall|k: int| from <= k < start ==> (#[trigger] block_end(text, k)).is_none()
            },
            None => forall|k: int|
                from <= k < text.len() ==> (#[trigger] block_end(text, k)).is_none(),
        },
    decreases text.len() - from,
{
    if from >= text.len() {
    } else {
        lemma_block_end_bounds(text, from);
        if block_end(text, from).is_none() {
            lemma_first_block_is_first(text, from + 1);
        }
    }
}

/// Once the blocks are cut out, no script block, style block or comment opens
/// anywhere in what is left.
pub proof fn lemma_without_blocks_opens_none(text: Seq<char>)
    ensures
        !opens_block(without_blocks(text)),
    decreases text.len(),
{
    lemma_first_block_is_first(text, 0);
    match first_block(text, 0) {
        Some((start, end)) => {
            lemma_without_blocks_opens_none(
                text.subrange(0, start) + text.subrange(end, text.len() as int),
            );
        },
        None => {},
    }
}

/// The content of an element lies within the text.
pub proof fn lemma_element_content_bounds(text: Seq<char>, open: Seq<char>, close: Seq<char>)
    ensures
        element_content(text, open, close) matches Some((start, end)) ==> 0 <= start <= end
            <= text.len(),
{
    lemma_first_match_is_first(text, 0, open, true);
    if let Some(tag) = first_match(text, 0, open, true) {
        lemma_first_char_is_first(text, tag + open.len(), '>');
        let start = match first_char(text, tag + open.len(), '>') {
            Some(gt) => gt + 1,
            None => text.len() as int,
        };
        lemma_first_match_is_first(text, start, close, true);
    }
}

/// A run of spaces and tabs ends at or after the place where it is entered.
pub proof fn lemma_gap_end_bounds(line: Seq<char>, at: int)
    requires
        0 <= at <= line.len(),
    ensures
        at <= gap_end(line, at) <= line.len(),
    decreases line.len() - at,
{
    if at < line.len() && is_gap(line[at]) {
        lemma_gap_end_bounds(line, at + 1);
    }
}

/// A run of empty lines holds empty lines only, and what follows it is not empty.
pub proof fn lemma_blank_run_end_bounds(lines: Seq<Seq<char>>, at: int)
    requires
        0 <= at <= lines.len(),
    ensures
        at <= blank_run_end(lines, at) <= lines.len(),
        forall|k: int| at <= k < blank_run_end(lines, at) ==> (#[trigger] lines[k]).len() == 0,
        blank_run_end(lines, at) < lines.len() ==> lines[blank_run_end(lines, at)].len() > 0,
    decreases lines.len() - at,
{
    if at < lines.len() && lines[at].len() == 0 {
        lemma_blank_run_end_bounds(lines, at + 1);
    }
}

/// The patterns that open and close the blocks that are cut out.
struct BlockPatterns {
    script_open: Vec<char>,
    script_close: Vec<char>,
    style_open: Vec<char>,
    style_close: Vec<char>,
    comment_open: Vec<char>,
    comment_close: Vec<char>,
}

impl BlockPatterns {
    spec fn wf(&self) -> bool {
        &&& self.script_open@ == "<script"@
        &&& self.script_close@ == "</script>"@
        &&& self.style_open@ == "<style"@
        &&& self.style_close@ == "</style>"@
        &&& self.comment_open@ == "<!--"@
        &&& self.comment_close@ == "-->"@
    }

    fn new() -> (p: Self)
        ensures
            p.wf(),
    {
        BlockPatterns {
            script_open: chars_of("<script"),
            script_close: chars_of("</script>"),
            style_open: chars_of("<style"),
            style_close: chars_of("</style>"),
            comment_open: chars_of("<!--"),
            comment_close: chars_of("-->"),
        }
    }
}

/// Where the element that opens before `from` ends.
fn find_close(text: &Vec<char>, from: usize, closer: &Vec<char>) -> (end: usize)
    requires
        from <= text.len(),
    ensures
        end == closed_at(text@, from as int, closer@),
        from <= end <= text.len(),
{
    proof {
        lemma_first_match_is_first(text@, from as int, closer@, true);
    }
    match find(text, from, closer, true) {
        Some(at) => at + closer.len(),
        None => text.len(),
    }
}

/// Where the block that opens at `at` ends, if one opens there.
fn block_end_at(text: &Vec<char>, at: usize, patterns: &BlockPatterns) -> (r: Option<usize>)
    requires
        patterns.wf(),
    ensures
        match r {
            Some(end) => block_end(text@, at as int) == Some(end as int),
            None => block_end(text@, at as int).is_none(),
        },
{
    if has_at(text, at, &patterns.script_open, true) {
        Some(find_close(text, at + patterns.script_open.len(), &patterns.script_close))
    } else if has_at(text, at, &patterns.style_open, true) {
        Some(find_close(text, at + patterns.style_open.len(), &patterns.style_close))
    } else if has_at(text, at, &patterns.comment_open, true) {
        Some(find_close(text, at + patterns.comment_open.len(), &patterns.comment_close))
    } else {
        None
    }
}

/// The leftmost block of the text, as its start and its end.
fn find_block(text: &Vec<char>, patterns: &BlockPatterns) -> (r: Option<(usize, usize)>)
    requires
        patterns.wf(),
    ensures
        match r {
            Some((start, end)) => first_block(text@, 0) == Some((start as int, end as int)),
            None => first_block(text@, 0).is_none(),
        },
{
    let mut at: usize = 0;
    while at < text.len()
        invariant
            patterns.wf(),
            first_block(text@, 0) == first_block(text@, at as int),
        decreases text.len() - at,
    {
        match block_end_at(text, at, patterns) {
            Some(end) => {
                return Some((at, end));
            },
            None => {},
        }
        at += 1;
    }
    None
}

/// The text without its script blocks, style blocks and comments.
pub fn strip_blocks(text: &Vec<char>) -> (r: Vec<char>)
    ensures
        r@ == without_blocks(text@),
        !opens_block(r@),
{
    let patterns = BlockPatterns::new();
    let mut r: Vec<char> = slice(text, 0, text.len());
    assert(r@ == text@);
    loop
        invariant
            patterns.wf(),
            without_blocks(r@) == without_blocks(text@),
        decreases r.len(),
    {
        proof {
            lemma_first_block_is_first(r@, 0);
        }
        match find_block(&r, &patterns) {
            Some((start, end)) => {
                let mut next = slice(&r, 0, start);
                push_range(&mut next, &r, end, r.len());
                r = next;
            },
            None => {
                proof {
                    lemma_without_blocks_opens_none(text@);
                }
                return r;
            },
        }
    }
}

/// The content of the first element whose opening tag begins with `open`.
pub fn find_element(text: &Vec<char>, open: &Vec<char>, close: &Vec<char>) -> (r: Option<
    (usize, usize),
>)
    ensures
        match r {
            Some((start, end)) => {
                &&& element_content(text@, open@, close@) == Some((start as int, end as int))
                &&& start <= end <= text.len()
            },
            None => element_content(text@, open@, close@).is_none(),
        },
{
    proof {
        lemma_first_match_is_first(text@, 0, open@, true);
        lemma_element_content_bounds(text@, open@, close@);
    }
    match find(text, 0, open, true) {
        Some(tag) => {
            let start: usize = match find_char(text, tag + open.len(), '>') {
                Some(gt) => {
                    proof {
                        lemma_first_char_is_first(text@, tag + open@.len(), '>');
                    }
                    gt + 1
                },
                None => text.len(),
            };
            let end: usize = match find(text, start, close, true) {
                Some(at) => at,
                None => text.len(),
            };
            Some((start, end))
        },
        None => None,
    }
}

/// The text without its tags.
pub fn strip_tags(text: &Vec<char>) -> (r: Vec<char>)
    ensures
        r@ == without_tags(text@),
{
    let mut r: Vec<char> = Vec::new();
    let mut at: usize = 0;
    while at < text.len()
        invariant
            at <= text.len(),
            without_tags(text@) == r@ + without_tags_from(text@, at as int),
        decreases text.len() - at,
    {
        if text[at] == '<' {
            proof {
                lemma_first_char_is_first(text@, at + 1, '>');
            }
            match find_char(text, at + 1, '>') {
                Some(gt) => {
                    at = gt + 1;
                },
                None => {
                    return r;
                },
            }
        } else {
            r.push(text[at]);
            at += 1;
        }
    }
    r
}

/// The line with each run of two or more spaces and tabs written as two spaces.
pub fn even_gaps(line: &Vec<char>) -> (r: Vec<char>)
    ensures
        r@ == gaps_evened(line@),
{
    let mut r: Vec<char> = Vec::new();
    let mut at: usize = 0;
    while at < line.len()
        invariant
            at <= line.len(),
            gaps_evened(line@) == r@ + gaps_evened_from(line@, at as int),
        decreases line.len() - at,
    {
        let mut end: usize = at;
        while end < line.len() && (line[end] == ' ' || line[end] == '\t')
            invariant
                at <= end <= line.len(),
                gap_end(line@, at as int) == gap_end(line@, end as int),
            decreases line.len() - end,
        {
            end += 1;
        }
        if end - at >= 2 {
            r.push(' ');
            r.push(' ');
            at = end;
        } else {
            r.push(line[at]);
            at += 1;
        }
    }
    r
}

/// Whether the line looks like a stray style rule.
pub fn is_css_line(line: &Vec<char>) -> (r: bool)
    ensures
        r == looks_like_css(line@),
{
    proof {
        lemma_first_char_is_first(line@, 0, '{');
        lemma_first_char_is_first(line@, 0, '}');
    }
    find_char(line, 0, '{').is_some() || find_char(line, 0, '}').is_some() || (line.len() > 0
        && line[0] == '@')
}

/// The lines, each trimmed and with its gaps evened, without those that look
/// like stray style rules.
pub fn tidy(lines: &Vec<Vec<char>>) -> (r: Vec<Vec<char>>)
    ensures
        rows(r@) == tidied_from(rows(lines@), 0),
{
    let mut r: Vec<Vec<char>> = Vec::new();
    let mut i: usize = 0;
    while i < lines.len()
        invariant
            i <= lines.len(),
            tidied_from(rows(lines@), 0) == rows(r@) + tidied_from(rows(lines@), i as int),
        decreases lines.len() - i,
    {
        let line = trim(&lines[i]);
        if !is_css_line(&line) {
            let evened = even_gaps(&line);
            let ghost before = rows(r@);
            r.push(evened);
            assert(rows(r@) == before.push(evened@));
        }
        i += 1;
    }
    r
}

/// The lines with each run of three or more empty lines written as one.
pub fn squeeze(lines: &Vec<Vec<char>>) -> (r: Vec<Vec<char>>)
    ensures
        rows(r@) == squeezed_from(rows(lines@), 0),
{
    let mut r: Vec<Vec<char>> = Vec::new();
    let mut i: usize = 0;
    while i < lines.len()
        invariant
            i <= lines.len(),
            squeezed_from(rows(lines@), 0) == rows(r@) + squeezed_from(rows(lines@), i as int),
        decreases lines.len() - i,
    {
        let mut end: usize = i;
        while end < lines.len() && lines[end].len() == 0
            invariant
                i <= end <= lines.len(),
                blank_run_end(rows(lines@), i as int) == blank_run_end(rows(lines@), end as int),
            decreases lines.len() - end,
        {
            end += 1;
        }
        let ghost before = rows(r@);
        if end - i >= 3 {
            let blank: Vec<char> = Vec::new();
            r.push(blank);
            assert(rows(r@) == before.push(Seq::<char>::empty()));
            i = end;
        } else {
            let line = slice(&lines[i], 0, lines[i].len());
            assert(line@ == lines[i as int]@);
            r.push(line);
            assert(rows(r@) == before.push(rows(lines@)[i as int]));
            i += 1;
        }
    }
    r
}

/// The text with its white space put in order.
pub fn normalize(text: &Vec<char>) -> (r: Vec<char>)
    ensures
        r@ == normalized(text@),
{
    let lines = split_lines(text);
    let tidied = tidy(&lines);
    let squeezed = squeeze(&tidied);
    join_lines(&squeezed)
}

/// The receipt without its padding.
pub fn extract_body(markup: &Vec<char>) -> (body: Vec<char>)
    ensures
        body@ == receipt_body(markup@),
{
    let clean = strip_blocks(markup);
    let entities = entity_table();
    let pre_open = chars_of("<pre");
    let pre_close = chars_of("</pre>");
    match find_element(&clean, &pre_open, &pre_close) {
        Some((start, end)) => {
            let content = slice(&clean, start, end);
            let decoded = rewrite(&content, &entities, false);
            trim(&decoded)
        },
        None => {
            let body_open = chars_of("<body");
            let body_close = chars_of("</body>");
            let region = match find_element(&clean, &body_open, &body_close) {
                Some((start, end)) => slice(&clean, start, end),
                None => clean,
            };
            let tags = tag_table();
            let laid_out = rewrite(&region, &tags, true);
            let bare = strip_tags(&laid_out);
            let decoded = rewrite(&bare, &entities, false);
            normalize(&decoded)
        },
    }
}

/// Turns a bill written as markup into the plain text that is sent to the
/// printer. Every markup is accepted: a tag or a block that is never closed
/// runs to the end of the text.
pub fn extract(markup: &str) -> (plain_text: String)
    ensures
        plain_text@ == extract_text(markup@),
{
    let text = chars_of(markup);
    let mut out = extract_body(&text);
    let pad = chars_of("\n\n\n\n\n\n\u{c}");
    push_all(&mut out, &pad);
    string_of(&out)
}

} // verus!
