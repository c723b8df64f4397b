//! What holds of every receipt: the laws of the extractor, proved from the
//! models of its stages.

use crate::entity_laws::{
    is_no_glyph, is_tag_opener, lemma_decoded_has_no_glyph, lemma_match_in_decoded,
};
use crate::extract::{
    blank_run_end, block_end, body_region, element_content, extract_text, gaps_evened, has_pre,
    lemma_element_content_bounds, lemma_first_block_is_first, lemma_without_blocks_opens_none,
    looks_like_css, normalized, opens_block, padding, receipt_body, receipt_source, squeezed_from,
    tidied_from, without_blocks, without_tags, without_tags_from,
};
use crate::layout_laws::{lemma_match_in_normalized, lemma_normalized_keeps};
use crate::rules::{
    entity_rules, lemma_nothing_to_rewrite, lemma_rule_from_is_first, rewritten, rule_at,
    tag_rules,
};
use crate::text::{
    contains, drop_spaces, first_char, first_match, is_space, joined, lemma_drop_spaces_bounds,
    lemma_first_char_is_first, lemma_first_match_is_first, lemma_skip_spaces_bounds, lines_of,
    matches_at, same, skip_spaces, trimmed,
};
use crate::text_laws::{
    all_chars, is_solid, lemma_match_in_part, lemma_trimmed_keeps,
    lemma_trimming_twice_is_trimming_once,
};
use vstd::prelude::*;

verus! {

/// Where a `<pre>` element opens in the markup once its blocks are cut out,
/// the receipt is the content of the first such element with its entities
/// decoded and the white space around it cut, followed by the padding, and
/// nothing else.
pub proof fn lemma_pre_block_is_printed_as_it_stands(markup: Seq<char>)
    requires
        has_pre(markup),
    ensures
        ({
            let clean = without_blocks(markup);
            let (start, end) = element_content(clean, "<pre"@, "</pre>"@).unwrap();
            &&& 0 <= start <= end <= clean.len()
            &&& receipt_source(markup) == clean.subrange(start, end)
            &&& extract_text(markup) == trimmed(
                rewritten(receipt_source(markup), entity_rules(), false),
            ) + padding()
        }),
{
    lemma_element_content_bounds(without_blocks(markup), "<pre"@, "</pre>"@);
}

/// A text that is printed from a `<pre>` element exactly as it is written:
/// it is trimmed and holds no `<`, no `&`, no rupee sign and no
/// multiplication sign.
pub open spec fn is_plain(body: Seq<char>) -> bool {
    &&& trimmed(body) == body
    &&& forall|i: int|
        0 <= i < body.len() ==> #[trigger] body[i] != '<' && body[i] != '&' && is_no_glyph(body[i])
}

/// The text between the tags of a `<pre>` element.
pub open spec fn in_pre(body: Seq<char>) -> Seq<char> {
    "<pre>"@ + body + "</pre>"@
}

/// A text in which no block opens is left as it is when the blocks are cut out.
pub proof fn lemma_nothing_to_cut(text: Seq<char>)
    requires
        !opens_block(text),
    ensures
        without_blocks(text) == text,
{
    lemma_first_block_is_first(text, 0);
}

proof fn lemma_plain_has_no_entity(body: Seq<char>, i: int)
    requires
        is_plain(body),
        0 <= i < body.len(),
    ensures
        rule_at(body, i, entity_rules(), false).is_none(),
{
    let rules = entity_rules();
    reveal_strlit("&nbsp;");
    reveal_strlit("&amp;");
    reveal_strlit("&lt;");
    reveal_strlit("&gt;");
    reveal_strlit("&quot;");
    reveal_strlit("&#39;");
    reveal_strlit("&#8377;");
    reveal_strlit("\u{20b9}");
    reveal_strlit("&times;");
    reveal_strlit("\u{d7}");
    lemma_rule_from_is_first(body, i, rules, false, 0);
    if rule_at(body, i, rules, false).is_some() {
        let k = rule_at(body, i, rules, false).unwrap();
        assert(k == 0 || k == 1 || k == 2 || k == 3 || k == 4 || k == 5 || k == 6 || k == 7 || k
            == 8 || k == 9);
        assert(same(body[i + 0], rules[k].pattern[0], false));
        assert(false);
    }
}

/// A plain text between the tags of a `<pre>` element is printed as itself.
pub proof fn lemma_plain_body_prints_as_itself(body: Seq<char>)
    requires
        is_plain(body),
    ensures
        has_pre(in_pre(body)),
        receipt_body(in_pre(body)) == body,
        extract_text(in_pre(body)) == body + padding(),
{
    let all = in_pre(body);
    let size = body.len() as int;
    reveal_strlit("<pre>");
    reveal_strlit("</pre>");
    reveal_strlit("<pre");
    reveal_strlit("<script");
    reveal_strlit("<style");
    reveal_strlit("<!--");
    assert(all.len() == size + 11);
    assert forall|i: int| 5 <= i < 5 + size implies #[trigger] all[i] == body[i - 5] by {}
    assert forall|at: int| 0 <= at < all.len() implies (#[trigger] block_end(
        all,
        at,
    )).is_none() by {
        if block_end(all, at).is_some() {
            if matches_at(all, at, "<script"@, true) {
                assert(same(all[at + 0], "<script"@[0], true));
                assert(same(all[at + 1], "<script"@[1], true));
            } else if matches_at(all, at, "<style"@, true) {
                assert(same(all[at + 0], "<style"@[0], true));
                assert(same(all[at + 1], "<style"@[1], true));
            } else {
                assert(same(all[at + 0], "<!--"@[0], true));
                assert(same(all[at + 1], "<!--"@[1], true));
            }
            assert(all[at] == '<');
            assert(at == 0 || at == 5 + size);
            assert(false);
        }
    }
    lemma_nothing_to_cut(all);
    assert(matches_at(all, 0, "<pre"@, true));
    assert(first_char(all, 4, '>') == Some(4int));
    assert(matches_at(all, 5 + size, "</pre>"@, true)) by {
        assert forall|j: int| 0 <= j < 6 implies same(
            all[5 + size + j],
            #[trigger] "</pre>"@[j],
            true,
        ) by {
            assert(all[5 + size + j] == "</pre>"@[j]);
        }
    }
    lemma_first_match_is_first(all, 5, "</pre>"@, true);
    match first_match(all, 5, "</pre>"@, true) {
        Some(at) => {
            if at < 5 + size {
                assert(same(all[at + 0], "</pre>"@[0], true));
                assert(false);
            }
            assert(at == 5 + size);
        },
        None => {
            assert(false);
        },
    }
    assert(element_content(all, "<pre"@, "</pre>"@) == Some((5int, 5 + size)));
    assert(all.subrange(5, 5 + size) =~= body);
    assert forall|i: int| 0 <= i < body.len() implies (#[trigger] rule_at(
        body,
        i,
        entity_rules(),
        false,
    )).is_none() by {
        lemma_plain_has_no_entity(body, i);
    }
    lemma_nothing_to_rewrite(body, 0, entity_rules(), false);
    assert(body.subrange(0, size) =~= body);
}

/// Printing is stable. The body of a receipt that came from a `<pre>`
/// element, put between the tags of a `<pre>` element, gives the same receipt
/// again, where the body holds no `<` and no `&`: those would be read as
/// markup the second time.
pub proof fn lemma_receipt_prints_the_same_again(markup: Seq<char>)
    requires
        has_pre(markup),
        forall|i: int|
            0 <= i < receipt_body(markup).len() ==> #[trigger] receipt_body(markup)[i] != '<'
                && receipt_body(markup)[i] != '&',
    ensures
        extract_text(in_pre(receipt_body(markup))) == extract_text(markup),
{
    let body = receipt_body(markup);
    let decoded = rewritten(receipt_source(markup), entity_rules(), false);
    lemma_trimming_twice_is_trimming_once(decoded);
    lemma_receipt_has_no_glyph(markup);
    assert forall|i: int| 0 <= i < body.len() implies is_no_glyph(#[trigger] body[i]) by {
        assert(extract_text(markup)[i] == body[i]);
    }
    lemma_plain_body_prints_as_itself(body);
}

/// No `<` is left where the tags were dropped.
pub proof fn lemma_without_tags_has_no_angle(text: Seq<char>, at: int)
    requires
        0 <= at,
    ensures
        all_chars(without_tags_from(text, at), |c: char| c != '<'),
    decreases text.len() - at,
{
    if at < text.len() {
        if text[at] == '<' {
            lemma_first_char_is_first(text, at + 1, '>');
            match first_char(text, at + 1, '>') {
                Some(gt) => {
                    lemma_without_tags_has_no_angle(text, gt + 1);
                },
                None => {},
            }
        } else {
            lemma_without_tags_has_no_angle(text, at + 1);
        }
    }
}

/// Whether the opening of a script block or of a style block stands in the
/// text, in whatever case.
pub open spec fn shows_block(text: Seq<char>) -> bool {
    contains(text, "<script"@, true) || contains(text, "<style"@, true)
}

/// Whether the text spells the opening of a script block or of a style block
/// with the entity `&lt;` in place of the `<`.
pub open spec fn spells_block(text: Seq<char>) -> bool {
    exists|q: int|
        #![trigger matches_at(text, q, "&lt;"@, false)]
        matches_at(text, q, "&lt;"@, false) && (matches_at(text, q + 4, "script"@, true)
            || matches_at(text, q + 4, "style"@, true))
}

proof fn lemma_block_openers()
    ensures
        is_tag_opener("<script"@),
        is_tag_opener("<style"@),
        is_solid("<script"@),
        is_solid("<style"@),
        "<script"@.skip(1) == "script"@,
        "<style"@.skip(1) == "style"@,
        "<script"@[0] == '<',
        "<style"@[0] == '<',
{
    reveal_strlit("<script");
    reveal_strlit("<style");
    reveal_strlit("script");
    reveal_strlit("style");
    assert("<script"@.skip(1) =~= "script"@);
    assert("<style"@.skip(1) =~= "style"@);
}

proof fn lemma_source_shows_no_opener(markup: Seq<char>, q: int, pat: Seq<char>)
    requires
        pat == "<script"@ || pat == "<style"@,
    ensures
        !matches_at(receipt_source(markup), q, pat, true),
{
    let clean = without_blocks(markup);
    let source = receipt_source(markup);
    lemma_block_openers();
    lemma_without_blocks_opens_none(markup);
    if matches_at(source, q, pat, true) {
        if has_pre(markup) {
            lemma_element_content_bounds(clean, "<pre"@, "</pre>"@);
            let (start, end) = element_content(clean, "<pre"@, "</pre>"@).unwrap();
            lemma_match_in_part(clean, start, end, q, pat, true);
            assert(block_end(clean, start + q).is_some());
            assert(opens_block(clean));
        } else {
            lemma_without_tags_has_no_angle(
                rewritten(body_region(clean), tag_rules(), true),
                0,
            );
            assert(same(source[q + 0], pat[0], true));
            assert(source[q] == '<');
        }
    }
}

proof fn lemma_body_shows_no_opener(markup: Seq<char>, p: int, pat: Seq<char>)
    requires
        pat == "<script"@ || pat == "<style"@,
        !spells_block(receipt_source(markup)),
    ensures
        !matches_at(receipt_body(markup), p, pat, true),
{
    let source = receipt_source(markup);
    let decoded = rewritten(source, entity_rules(), false);
    lemma_block_openers();
    if matches_at(receipt_body(markup), p, pat, true) {
        let in_decoded = if has_pre(markup) {
            lemma_skip_spaces_bounds(decoded, 0);
            let start = skip_spaces(decoded, 0);
            lemma_drop_spaces_bounds(decoded, start, decoded.len() as int);
            lemma_match_in_part(
                decoded,
                start,
                drop_spaces(decoded, start, decoded.len() as int),
                p,
                pat,
                true,
            );
            start + p
        } else {
            lemma_match_in_normalized(decoded, p, pat, true)
        };
        let q = lemma_match_in_decoded(source, in_decoded, pat);
        lemma_source_shows_no_opener(markup, q, pat);
        assert(matches_at(source, q, "&lt;"@, false));
        assert(spells_block(source));
    }
}

/// No script block and no style block ever reaches the receipt. Wherever the
/// markup opens one, nested or cut short as it may be, the receipt shows
/// neither `<script` nor `<style`, in whatever case. The one way to make a
/// receipt show them is to spell them in the text itself, with the entity
/// `&lt;` directly before the name: that is text to be printed, and it is.
pub proof fn lemma_receipt_shows_no_block(markup: Seq<char>)
    requires
        !spells_block(receipt_source(markup)),
    ensures
        !shows_block(extract_text(markup)),
{
    let body = receipt_body(markup);
    let out = extract_text(markup);
    lemma_block_openers();
    reveal_strlit("\n\n\n\n\n\n\u{c}");
    if shows_block(out) {
        let pat = if contains(out, "<script"@, true) {
            "<script"@
        } else {
            "<style"@
        };
        let p = choose|p: int| matches_at(out, p, pat, true);
        if p + pat.len() > body.len() {
            let j = if p >= body.len() {
                0
            } else {
                body.len() - p
            };
            assert(out[p + j] == padding()[p + j - body.len()]);
            assert(same(out[p + j], pat[j], true));
            assert(out[p + j] == '\n' || out[p + j] == '\u{c}');
            assert('a' <= pat[j] <= 'z' || pat[j] == '<');
            assert(false);
        }
        assert forall|j: int| 0 <= j < pat.len() implies same(
            body[p + j],
            #[trigger] pat[j],
            true,
        ) by {
            assert(out[p + j] == body[p + j]);
        }
        lemma_body_shows_no_opener(markup, p, pat);
    }
}

/// No receipt shows a rupee sign or a multiplication sign, whatever the
/// markup: the rupee sign is always printed as `Rs.`, the multiplication
/// sign as `x`.
pub proof fn lemma_receipt_has_no_glyph(markup: Seq<char>)
    ensures
        all_chars(extract_text(markup), |c: char| is_no_glyph(c)),
{
    let p = |c: char| is_no_glyph(c);
    let decoded = rewritten(receipt_source(markup), entity_rules(), false);
    reveal_strlit("\n\n\n\n\n\n\u{c}");
    assert(all_chars(padding(), p));
    lemma_decoded_has_no_glyph(receipt_source(markup));
    if has_pre(markup) {
        lemma_trimmed_keeps(decoded, p);
    } else {
        lemma_normalized_keeps(decoded, p);
    }
}

/// The padding is not empty and made of white space only, and every
/// receipt ends with it.
pub proof fn lemma_receipt_ends_with_padding(markup: Seq<char>)
    ensures
        padding().len() > 0,
        all_chars(padding(), |c: char| is_space(c)),
        extract_text(markup).len() >= padding().len(),
        extract_text(markup).subrange(
            extract_text(markup).len() - padding().len(),
            extract_text(markup).len() as int,
        ) == padding(),
{
    reveal_strlit("\n\n\n\n\n\n\u{c}");
    let out = extract_text(markup);
    assert(out.subrange(out.len() - padding().len(), out.len() as int) =~= padding());
}

/// The receipt for an empty markup is the padding and nothing else.
pub proof fn lemma_empty_markup_prints_padding_only()
    ensures
        extract_text(Seq::empty()) == padding(),
{
    let none = Seq::<char>::empty();
    reveal_strlit("<pre");
    reveal_strlit("<body");
    assert(without_blocks(none) == none);
    assert(first_match(none, 0, "<pre"@, true).is_none());
    assert(first_match(none, 0, "<body"@, true).is_none());
    assert(!has_pre(none));
    assert(body_region(none) == none);
    assert(rewritten(none, tag_rules(), true) == none);
    assert(without_tags(none) == none);
    assert(receipt_source(none) == none);
    assert(rewritten(none, entity_rules(), false) == none);
    let lines = lines_of(none);
    assert(first_char(none, 0, '\n').is_none());
    assert(lines =~= seq![none]) by {
        assert(none.subrange(0, 0) =~= none);
    }
    assert(trimmed(none) =~= none);
    assert(!looks_like_css(none));
    assert(gaps_evened(none) == none);
    let tidied = tidied_from(lines, 0);
    assert(tidied_from(lines, 1) == Seq::<Seq<char>>::empty());
    assert(tidied =~= seq![none]);
    assert(blank_run_end(tidied, 1) == 1);
    assert(blank_run_end(tidied, 0) == 1);
    assert(squeezed_from(tidied, 1) == Seq::<Seq<char>>::empty());
    let squeezed = squeezed_from(tidied, 0);
    assert(squeezed =~= seq![none]);
    assert(joined(squeezed) == none);
    assert(normalized(none) == none);
    assert(receipt_body(none) == none);
    assert(none + padding() =~= padding());
}

} // verus!
