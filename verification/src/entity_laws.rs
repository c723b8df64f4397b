//! What holds of decoded text: which characters it can hold, and that a tag
//! which stands in it was written in the text before.

use crate::rules::{
    entity_rules, lemma_origin, lemma_origin_of_next, lemma_origin_of_previous,
    lemma_rewritten_replaces, lemma_rule_from_is_first, origin, rewritten, rule_at,
    writes_something,
};
use crate::text::{matches_at, same};
use crate::text_laws::all_chars;
use vstd::prelude::*;

verus! {

/// Neither the rupee sign nor the multiplication sign.
pub open spec fn is_no_glyph(c: char) -> bool {
    c != '\u{20b9}' && c != '\u{d7}'
}

/// Decoding leaves no rupee sign and no multiplication sign behind: each is
/// written out, as `Rs.` and as `x`.
pub proof fn lemma_decoded_has_no_glyph(text: Seq<char>)
    ensures
        all_chars(rewritten(text, entity_rules(), false), |c: char| is_no_glyph(c)),
{
    let p = |c: char| is_no_glyph(c);
    let rules = entity_rules();
    reveal_strlit(" ");
    reveal_strlit("&");
    reveal_strlit("<");
    reveal_strlit(">");
    reveal_strlit("\"");
    reveal_strlit("'");
    reveal_strlit("Rs.");
    reveal_strlit("x");
    reveal_strlit("\u{20b9}");
    reveal_strlit("\u{d7}");
    assert forall|k: int| 0 <= k < rules.len() implies all_chars(
        (#[trigger] rules[k]).replacement,
        p,
    ) by {}
    assert forall|c: char| !(#[trigger] p(c)) implies exists|k: int|
        0 <= k < rules.len() && (#[trigger] rules[k]).pattern == seq![c] by {
        if c == '\u{20b9}' {
            assert(rules[7].pattern =~= seq![c]);
        } else {
            assert(rules[9].pattern =~= seq![c]);
        }
    }
    lemma_rewritten_replaces(text, 0, rules, p);
}

/// A pattern made of `<` and a name in small letters that no decoded entity
/// can be mistaken for: the name holds no `x`, no `r` at its end or before
/// an `s`, and no `s` behind an `r`.
pub open spec fn is_tag_opener(pat: Seq<char>) -> bool {
    &&& pat.len() >= 2
    &&& pat[0] == '<'
    &&& forall|t: int|
        1 <= t < pat.len() ==> {
            &&& 'a' <= #[trigger] pat[t] <= 'z'
            &&& pat[t] != 'x'
            &&& pat[t] == 'r' ==> t + 1 < pat.len() && pat[t + 1] != 's'
            &&& pat[t] == 's' ==> pat[t - 1] != 'r'
        }
}

proof fn lemma_entity_table()
    ensures
        entity_rules().len() == 10,
        writes_something(entity_rules()),
        entity_rules()[0].replacement == seq![' '],
        entity_rules()[1].replacement == seq!['&'],
        entity_rules()[2].replacement == seq!['<'],
        entity_rules()[3].replacement == seq!['>'],
        entity_rules()[4].replacement == seq!['"'],
        entity_rules()[5].replacement == seq!['\''],
        entity_rules()[6].replacement == seq!['R', 's', '.'],
        entity_rules()[7].replacement == seq!['R', 's', '.'],
        entity_rules()[8].replacement == seq!['x'],
        entity_rules()[9].replacement == seq!['x'],
        entity_rules()[2].pattern == "&lt;"@,
        "&lt;"@.len() == 4,
{
    reveal_strlit(" ");
    reveal_strlit("&");
    reveal_strlit("<");
    reveal_strlit(">");
    reveal_strlit("\"");
    reveal_strlit("'");
    reveal_strlit("Rs.");
    reveal_strlit("x");
    reveal_strlit("&lt;");
    let rules = entity_rules();
    assert(rules[0].replacement =~= seq![' ']);
    assert(rules[1].replacement =~= seq!['&']);
    assert(rules[2].replacement =~= seq!['<']);
    assert(rules[3].replacement =~= seq!['>']);
    assert(rules[4].replacement =~= seq!['"']);
    assert(rules[5].replacement =~= seq!['\'']);
    assert(rules[6].replacement =~= seq!['R', 's', '.']);
    assert(rules[7].replacement =~= seq!['R', 's', '.']);
    assert(rules[8].replacement =~= seq!['x']);
    assert(rules[9].replacement =~= seq!['x']);
    assert forall|k: int| 0 <= k < rules.len() implies (#[trigger] rules[k]).replacement.len()
        > 0 by {
        assert(k == 0 || k == 1 || k == 2 || k == 3 || k == 4 || k == 5 || k == 6 || k == 7 || k
            == 8 || k == 9);
    }
}

proof fn lemma_name_is_kept(text: Seq<char>, p: int, pat: Seq<char>, t: int)
    requires
        is_tag_opener(pat),
        1 <= t < pat.len(),
        matches_at(rewritten(text, entity_rules(), false), p, pat, true),
    ensures
        origin(text, 0, entity_rules(), false, p + t).1 == -1,
{
    let rules = entity_rules();
    let out = rewritten(text, rules, false);
    lemma_entity_table();
    lemma_origin(text, 0, rules, false, p + t);
    let (from, place) = origin(text, 0, rules, false, p + t);
    assert(same(out[p + t], pat[t], true));
    assert('a' <= pat[t] <= 'z');
    if place >= 0 {
        let k = rule_at(text, from, rules, false).unwrap();
        assert(k == 0 || k == 1 || k == 2 || k == 3 || k == 4 || k == 5 || k == 6 || k == 7 || k
            == 8 || k == 9);
        assert(k == 6 || k == 7);
        assert(place == 0 || place == 1);
        if place == 0 {
            assert(pat[t] == 'r');
            lemma_origin_of_next(text, 0, rules, false, p + t);
            lemma_origin(text, 0, rules, false, p + t + 1);
            assert(out[p + t + 1] == 's');
            assert(same(out[p + (t + 1)], pat[t + 1], true));
            assert(false);
        } else {
            assert(pat[t] == 's');
            lemma_origin_of_previous(text, 0, rules, false, p + t);
            lemma_origin(text, 0, rules, false, p + t - 1);
            assert(out[p + t - 1] == 'R');
            assert(same(out[p + (t - 1)], pat[t - 1], true));
            assert(false);
        }
    }
}

proof fn lemma_name_is_in_a_row(text: Seq<char>, p: int, pat: Seq<char>, t: int)
    requires
        is_tag_opener(pat),
        1 <= t < pat.len(),
        matches_at(rewritten(text, entity_rules(), false), p, pat, true),
    ensures
        origin(text, 0, entity_rules(), false, p + t).0 == origin(
            text,
            0,
            entity_rules(),
            false,
            p + 1,
        ).0 + t - 1,
        same(text[origin(text, 0, entity_rules(), false, p + t).0], pat[t], true),
        origin(text, 0, entity_rules(), false, p + t).0 < text.len(),
    decreases t,
{
    let rules = entity_rules();
    let out = rewritten(text, rules, false);
    lemma_entity_table();
    lemma_name_is_kept(text, p, pat, t);
    lemma_origin(text, 0, rules, false, p + t);
    assert(same(out[p + t], pat[t], true));
    if t > 1 {
        lemma_name_is_in_a_row(text, p, pat, t - 1);
        lemma_name_is_kept(text, p, pat, t - 1);
        lemma_origin_of_next(text, 0, rules, false, p + t - 1);
    }
}

/// Decoding the entities moves no name to a `<`: a tag opener that stands in
/// the decoded text stood in the text before, with its `<` written as it is
/// or as the entity `&lt;`.
pub proof fn lemma_match_in_decoded(text: Seq<char>, p: int, pat: Seq<char>) -> (q: int)
    requires
        is_tag_opener(pat),
        matches_at(rewritten(text, entity_rules(), false), p, pat, true),
    ensures
        matches_at(text, q, pat, true) || (matches_at(text, q, "&lt;"@, false) && matches_at(
            text,
            q + 4,
            pat.skip(1),
            true,
        )),
{
    let rules = entity_rules();
    let out = rewritten(text, rules, false);
    lemma_entity_table();
    lemma_origin(text, 0, rules, false, p);
    lemma_origin_of_next(text, 0, rules, false, p);
    let (from, place) = origin(text, 0, rules, false, p);
    let first = origin(text, 0, rules, false, p + 1).0;
    assert(same(out[p + 0], pat[0], true));
    assert(out[p] == '<');
    lemma_name_is_in_a_row(text, p, pat, pat.len() - 1);
    assert forall|t: int| 1 <= t < pat.len() implies same(
        text[first + t - 1],
        #[trigger] pat[t],
        true,
    ) by {
        lemma_name_is_in_a_row(text, p, pat, t);
    }
    if place == -1 {
        assert(first == from + 1);
        assert forall|t: int| 0 <= t < pat.len() implies same(
            text[from + t],
            #[trigger] pat[t],
            true,
        ) by {
            if t > 0 {
                assert(same(text[first + t - 1], pat[t], true));
            }
        }
        from
    } else {
        let k = rule_at(text, from, rules, false).unwrap();
        assert(k == 0 || k == 1 || k == 2 || k == 3 || k == 4 || k == 5 || k == 6 || k == 7 || k
            == 8 || k == 9);
        assert(k == 2);
        lemma_rule_from_is_first(text, from, rules, false, 0);
        assert(first == from + 4);
        let name = pat.skip(1);
        assert forall|j: int| 0 <= j < name.len() implies same(
            text[from + 4 + j],
            #[trigger] name[j],
            true,
        ) by {
            assert(name[j] == pat[j + 1]);
            assert(same(text[first + (j + 1) - 1], pat[j + 1], true));
        }
        from
    }
}

} // verus!
