//! The rewriting rules of the extractor: which tags become text, and which
//! entities become which characters.

use crate::text::{chars_of, has_at, matches_at, push_all};
use crate::text_laws::all_chars;
use vstd::prelude::*;

verus! {

/// The view of `ExtractionRule`: one rewriting rule as a pair of texts.
pub struct RuleModel {
    pub pattern: Seq<char>,
    pub replacement: Seq<char>,
}

/// One rewriting rule: wherever `pattern` stands, `replacement` is written instead.
pub struct ExtractionRule {
    pub pattern: Vec<char>,
    pub replacement: Vec<char>,
}

impl View for ExtractionRule {
    type V = RuleModel;

    open spec fn view(&self) -> RuleModel {
        RuleModel { pattern: self.pattern@, replacement: self.replacement@ }
    }
}

/// The rule that writes `replacement` where `pattern` stands.
pub open spec fn rule(pattern: &str, replacement: &str) -> RuleModel {
    RuleModel { pattern: pattern@, replacement: replacement@ }
}

/// The rules held by a table, in its order.
pub open spec fn models(table: Seq<ExtractionRule>) -> Seq<RuleModel> {
    table.map_values(|r: ExtractionRule| r@)
}

/// Tags that carry layout, each with the text that takes its place.
/// Closing block tags and line breaks end the line, a horizontal rule
/// becomes a line of forty dashes, and a closing table cell becomes a column
/// gap of two spaces.
pub open spec fn tag_rules() -> Seq<RuleModel> {
    seq![
        rule("</p>", "\n"),
        rule("</div>", "\n"),
        rule("</tr>", "\n"),
        rule("</h1>", "\n"),
        rule("</h2>", "\n"),
        rule("</h3>", "\n"),
        rule("</h4>", "\n"),
        rule("</h5>", "\n"),
        rule("</h6>", "\n"),
        rule("<br>", "\n"),
        rule("<br/>", "\n"),
        rule("<br />", "\n"),
        rule("<hr>", "\n----------------------------------------\n"),
        rule("<hr/>", "\n----------------------------------------\n"),
        rule("<hr />", "\n----------------------------------------\n"),
        rule("</td>", "  "),
        rule("</th>", "  "),
    ]
}

/// The entities that are decoded, each with the text it stands for. The rupee
/// sign is always written `Rs.` and the multiplication sign `x`, whether they
/// arrive as an entity or as the character itself.
pub open spec fn entity_rules() -> Seq<RuleModel> {
    seq![
        rule("&nbsp;", " "),
        rule("&amp;", "&"),
        rule("&lt;", "<"),
        rule("&gt;", ">"),
        rule("&quot;", "\""),
        rule("&#39;", "'"),
        rule("&#8377;", "Rs."),
        rule("\u{20b9}", "Rs."),
        rule("&times;", "x"),
        rule("\u{d7}", "x"),
    ]
}

/// The first rule at index `k` or later whose pattern stands in `text` at `at`.
pub open spec fn rule_from(
    text: Seq<char>,
    at: int,
    rules: Seq<RuleModel>,
    fold: bool,
    k: int,
) -> Option<int>
    decreases rules.len() - k,
{
    if k < 0 || k >= rules.len() {
        None
    } else if rules[k].pattern.len() > 0 && matches_at(text, at, rules[k].pattern, fold) {
        Some(k)
    } else {
        rule_from(text, at, rules, fold, k + 1)
    }
}

/// The first rule whose pattern stands in `text` at `at`.
pub open spec fn rule_at(text: Seq<char>, at: int, rules: Seq<RuleModel>, fold: bool) -> Option<
    int,
> {
    rule_from(text, at, rules, fold, 0)
}

/// The text from `at` on, rewritten from left to right: where a rule's pattern
/// stands its replacement is written and the pattern is passed over; any other
/// character is kept.
pub open spec fn rewritten_from(text: Seq<char>, at: int, rules: Seq<RuleModel>, fold: bool) -> Seq<
    char,
>
    decreases text.len() - at,
{
    if at < 0 || at >= text.len() {
        Seq::empty()
    } else {
        match rule_at(text, at, rules, fold) {
            Some(k) => if 0 <= k < rules.len() && 0 < rules[k].pattern.len() <= text.len() - at {
                rules[k].replacement + rewritten_from(
                    text,
                    at + rules[k].pattern.len(),
                    rules,
                    fold,
                )
            } else {
                Seq::empty()
            },
            None => seq![text[at]] + rewritten_from(text, at + 1, rules, fold),
        }
    }
}

/// The whole text rewritten by the rules.
pub open spec fn rewritten(text: Seq<char>, rules: Seq<RuleModel>, fold: bool) -> Seq<char> {
    rewritten_from(text, 0, rules, fold)
}

/// What `rule_from` finds is a rule whose pattern stands at `at`, and the
/// first such rule from index `k` on; where it finds none, there is none.
pub proof fn lemma_rule_from_is_first(
    text: Seq<char>,
    at: int,
    rules: Seq<RuleModel>,
    fold: bool,
    k: int,
)
    requires
        0 <= k,
    ensures
        match rule_from(text, at, rules, fold, k) {
            Some(r) => {
                &&& k <= r < rules.len()
                &&& rules[r].pattern.len() > 0
                &&& matches_at(text, at, rules[r].pattern, fold)
                &&& forall|j: int|
                    k <= j < r ==> !(rules[j].pattern.len() > 0 && matches_at(
                        text,
                        at,
                        #[trigger] rules[j].pattern,
                        fold,
                    ))
            },
            None => forall|j: int|
                k <= j < rules.len() ==> !(rules[j].pattern.len() > 0 && matches_at(
                    text,
                    at,
                    #[trigger] rules[j].pattern,
                    fold,
                )),
        },
    decreases rules.len() - k,
{
    if k >= rules.len() {
    } else if rules[k].pattern.len() > 0 && matches_at(text, at, rules[k].pattern, fold) {
    } else {
        lemma_rule_from_is_first(text, at, rules, fold, k + 1);
    }
}

/// Where the character at position `p` of the text rewritten from `at` on
/// comes from: the position in `text` of the piece that wrote it, and its
/// place in the replacement of the rule that stands there, or -1 where the
/// character was kept as it stood.
pub open spec fn origin(text: Seq<char>, at: int, rules: Seq<RuleModel>, fold: bool, p: int) -> (
    int,
    int,
)
    decreases text.len() - at,
{
    if at < 0 || at >= text.len() || p < 0 {
        (text.len() as int, -1)
    } else {
        match rule_at(text, at, rules, fold) {
            Some(k) => if 0 <= k < rules.len() && 0 < rules[k].pattern.len() <= text.len() - at {
                if p < rules[k].replacement.len() {
                    (at, p)
                } else {
                    origin(
                        text,
                        at + rules[k].pattern.len(),
                        rules,
                        fold,
                        p - rules[k].replacement.len(),
                    )
                }
            } else {
                (text.len() as int, -1)
            },
            None => if p == 0 {
                (at, -1)
            } else {
                origin(text, at + 1, rules, fold, p - 1)
            },
        }
    }
}

/// No rule of the table replaces its pattern by nothing.
pub open spec fn writes_something(rules: Seq<RuleModel>) -> bool {
    forall|k: int| 0 <= k < rules.len() ==> (#[trigger] rules[k]).replacement.len() > 0
}

/// Every character of a rewritten text was either kept from the text, where
/// no rule's pattern stands, or written by the rule whose pattern stands at
/// its origin.
pub proof fn lemma_origin(text: Seq<char>, at: int, rules: Seq<RuleModel>, fold: bool, p: int)
    requires
        0 <= at,
        0 <= p < rewritten_from(text, at, rules, fold).len(),
    ensures
        ({
            let (from, place) = origin(text, at, rules, fold, p);
            let out = rewritten_from(text, at, rules, fold);
            &&& at <= from < text.len()
            &&& place >= -1
            &&& place == -1 ==> rule_at(text, from, rules, fold).is_none() && out[p] == text[from]
            &&& place >= 0 ==> {
                &&& rule_at(text, from, rules, fold).is_some()
                &&& 0 <= rule_at(text, from, rules, fold).unwrap() < rules.len()
                &&& place < rules[rule_at(text, from, rules, fold).unwrap()].replacement.len()
                &&& out[p] == rules[rule_at(text, from, rules, fold).unwrap()].replacement[place]
            }
        }),
    decreases text.len() - at,
{
    lemma_rule_from_is_first(text, at, rules, fold, 0);
    match rule_at(text, at, rules, fold) {
        Some(k) => {
            if p >= rules[k].replacement.len() {
                lemma_origin(
                    text,
                    at + rules[k].pattern.len(),
                    rules,
                    fold,
                    p - rules[k].replacement.len(),
                );
            }
        },
        None => {
            if p > 0 {
                lemma_origin(text, at + 1, rules, fold, p - 1);
            }
        },
    }
}

/// The first character that is written from `at` on comes from `at`.
pub proof fn lemma_origin_of_first(text: Seq<char>, at: int, rules: Seq<RuleModel>, fold: bool)
    requires
        0 <= at,
        0 < rewritten_from(text, at, rules, fold).len(),
        writes_something(rules),
    ensures
        origin(text, at, rules, fold, 0).0 == at,
        -1 <= origin(text, at, rules, fold, 0).1 <= 0,
{
    lemma_rule_from_is_first(text, at, rules, fold, 0);
}

/// The character that follows one that was kept comes from the next position
/// of the text; the character that follows one that a rule wrote is the next
/// of the same replacement or, behind its last, comes from the position
/// behind the rule's pattern.
pub proof fn lemma_origin_of_next(
    text: Seq<char>,
    at: int,
    rules: Seq<RuleModel>,
    fold: bool,
    p: int,
)
    requires
        0 <= at,
        0 <= p,
        p + 1 < rewritten_from(text, at, rules, fold).len(),
        writes_something(rules),
    ensures
        ({
            let (from, place) = origin(text, at, rules, fold, p);
            let (next_from, next_place) = origin(text, at, rules, fold, p + 1);
            let k = rule_at(text, from, rules, fold);
            &&& place == -1 ==> next_from == from + 1 && -1 <= next_place <= 0
            &&& place >= 0 && k.is_some() && place + 1 < rules[k.unwrap()].replacement.len()
                ==> next_from == from && next_place == place + 1
            &&& place >= 0 && k.is_some() && place + 1 == rules[k.unwrap()].replacement.len()
                ==> next_from == from + rules[k.unwrap()].pattern.len() && -1 <= next_place <= 0
        }),
    decreases text.len() - at,
{
    lemma_rule_from_is_first(text, at, rules, fold, 0);
    match rule_at(text, at, rules, fold) {
        Some(k) => {
            let width = rules[k].pattern.len() as int;
            let written = rules[k].replacement.len() as int;
            if p >= written {
                lemma_origin_of_next(text, at + width, rules, fold, p - written);
            } else if p + 1 == written {
                lemma_origin_of_first(text, at + width, rules, fold);
            }
        },
        None => {
            if p > 0 {
                lemma_origin_of_next(text, at + 1, rules, fold, p - 1);
            } else {
                lemma_origin_of_first(text, at + 1, rules, fold);
            }
        },
    }
}

/// A character that is not the first of its replacement follows the one
/// before it in the same replacement.
pub proof fn lemma_origin_of_previous(
    text: Seq<char>,
    at: int,
    rules: Seq<RuleModel>,
    fold: bool,
    p: int,
)
    requires
        0 <= at,
        0 <= p < rewritten_from(text, at, rules, fold).len(),
        origin(text, at, rules, fold, p).1 > 0,
    ensures
        p > 0,
        origin(text, at, rules, fold, p - 1) == (
            origin(text, at, rules, fold, p).0,
            origin(text, at, rules, fold, p).1 - 1,
        ),
    decreases text.len() - at,
{
    lemma_rule_from_is_first(text, at, rules, fold, 0);
    match rule_at(text, at, rules, fold) {
        Some(k) => {
            if p >= rules[k].replacement.len() {
                lemma_origin_of_previous(
                    text,
                    at + rules[k].pattern.len(),
                    rules,
                    fold,
                    p - rules[k].replacement.len(),
                );
            }
        },
        None => {
            if p > 0 {
                lemma_origin_of_previous(text, at + 1, rules, fold, p - 1);
            }
        },
    }
}

/// A rewriting whose every replacement has the property `p`, and which has a
/// rule for each single character that lacks it, writes characters with the
/// property only.
pub proof fn lemma_rewritten_replaces(
    text: Seq<char>,
    at: int,
    rules: Seq<RuleModel>,
    p: spec_fn(char) -> bool,
)
    requires
        0 <= at,
        forall|k: int| 0 <= k < rules.len() ==> all_chars((#[trigger] rules[k]).replacement, p),
        forall|c: char|
            !(#[trigger] p(c)) ==> exists|k: int|
                0 <= k < rules.len() && (#[trigger] rules[k]).pattern == seq![c],
    ensures
        all_chars(rewritten_from(text, at, rules, false), p),
    decreases text.len() - at,
{
    if at < text.len() {
        lemma_rule_from_is_first(text, at, rules, false, 0);
        match rule_at(text, at, rules, false) {
            Some(k) => {
                lemma_rewritten_replaces(text, at + rules[k].pattern.len(), rules, p);
                assert(all_chars(rules[k].replacement, p));
            },
            None => {
                lemma_rewritten_replaces(text, at + 1, rules, p);
                let c = text[at];
                if !p(c) {
                    let k = choose|k: int|
                        0 <= k < rules.len() && (#[trigger] rules[k]).pattern == seq![c];
                    assert(matches_at(text, at, rules[k].pattern, false));
                    assert(false);
                }
            },
        }
    }
}

/// A text in which no rule's pattern stands is left as it is by the rewriting.
pub proof fn lemma_nothing_to_rewrite(text: Seq<char>, at: int, rules: Seq<RuleModel>, fold: bool)
    requires
        0 <= at <= text.len(),
        forall|i: int| 0 <= i < text.len() ==> (#[trigger] rule_at(text, i, rules, fold)).is_none(),
    ensures
        rewritten_from(text, at, rules, fold) == text.subrange(at, text.len() as int),
    decreases text.len() - at,
{
    if at < text.len() {
        assert(rule_at(text, at, rules, fold).is_none());
        lemma_nothing_to_rewrite(text, at + 1, rules, fold);
    }
}

impl ExtractionRule {
    /// The rule that writes `replacement` where `pattern` stands.
    pub fn new(pattern: &str, replacement: &str) -> (r: Self)
        ensures
            r@ == rule(pattern, replacement),
    {
        ExtractionRule { pattern: chars_of(pattern), replacement: chars_of(replacement) }
    }
}

/// The table of layout tags.
pub fn tag_table() -> (table: Vec<ExtractionRule>)
    ensures
        models(table@) == tag_rules(),
{
    let mut table: Vec<ExtractionRule> = Vec::new();
    table.push(ExtractionRule::new("</p>", "\n"));
    table.push(ExtractionRule::new("</div>", "\n"));
    table.push(ExtractionRule::new("</tr>", "\n"));
    table.push(ExtractionRule::new("</h1>", "\n"));
    table.push(ExtractionRule::new("</h2>", "\n"));
    table.push(ExtractionRule::new("</h3>", "\n"));
    table.push(ExtractionRule::new("</h4>", "\n"));
    table.push(ExtractionRule::new("</h5>", "\n"));
    table.push(ExtractionRule::new("</h6>", "\n"));
    table.push(ExtractionRule::new("<br>", "\n"));
    table.push(ExtractionRule::new("<br/>", "\n"));
    table.push(ExtractionRule::new("<br />", "\n"));
    table.push(ExtractionRule::new("<hr>", "\n----------------------------------------\n"));
    table.push(ExtractionRule::new("<hr/>", "\n----------------------------------------\n"));
    table.push(ExtractionRule::new("<hr />", "\n----------------------------------------\n"));
    table.push(ExtractionRule::new("</td>", "  "));
    table.push(ExtractionRule::new("</th>", "  "));
    assert(models(table@) =~= tag_rules());
    table
}

/// The table of entities.
pub fn entity_table() -> (table: Vec<ExtractionRule>)
    ensures
        models(table@) == entity_rules(),
{
    let mut table: Vec<ExtractionRule> = Vec::new();
    table.push(ExtractionRule::new("&nbsp;", " "));
    table.push(ExtractionRule::new("&amp;", "&"));
    table.push(ExtractionRule::new("&lt;", "<"));
    table.push(ExtractionRule::new("&gt;", ">"));
    table.push(ExtractionRule::new("&quot;", "\""));
    table.push(ExtractionRule::new("&#39;", "'"));
    table.push(ExtractionRule::new("&#8377;", "Rs."));
    table.push(ExtractionRule::new("\u{20b9}", "Rs."));
    table.push(ExtractionRule::new("&times;", "x"));
    table.push(ExtractionRule::new("\u{d7}", "x"));
    assert(models(table@) =~= entity_rules());
    table
}

/// The first rule of the table whose pattern stands in `text` at `at`.
pub fn find_rule(text: &Vec<char>, at: usize, rules: &Vec<ExtractionRule>, fold: bool) -> (r:
    Option<usize>)
    ensures
        match r {
            Some(k) => rule_at(text@, at as int, models(rules@), fold) == Some(k as int),
            None => rule_at(text@, at as int, models(rules@), fold).is_none(),
        },
{
    let mut k: usize = 0;
    while k < rules.len()
        invariant
            k <= rules.len(),
            rule_at(text@, at as int, models(rules@), fold) == rule_from(
                text@,
                at as int,
                models(rules@),
                fold,
                k as int,
            ),
        decreases rules.len() - k,
    {
        if rules[k].pattern.len() > 0 && has_at(text, at, &rules[k].pattern, fold) {
            return Some(k);
        }
        k += 1;
    }
    None
}

/// The text rewritten by the rules of the table, from left to right.
pub fn rewrite(text: &Vec<char>, rules: &Vec<ExtractionRule>, fold: bool) -> (r: Vec<char>)
    ensures
        r@ == rewritten(text@, models(rules@), fold),
{
    let mut r: Vec<char> = Vec::new();
    let mut at: usize = 0;
    while at < text.len()
        invariant
            at <= text.len(),
            rewritten(text@, models(rules@), fold) == r@ + rewritten_from(
                text@,
                at as int,
                models(rules@),
                fold,
            ),
        decreases text.len() - at,
    {
        match find_rule(text, at, rules, fold) {
            Some(k) => {
                proof {
                    lemma_rule_from_is_first(text@, at as int, models(rules@), fold, 0);
                }
                push_all(&mut r, &rules[k].replacement);
                at = at + rules[k].pattern.len();
            },
            None => {
                r.push(text[at]);
                at += 1;
            },
        }
    }
    r
}

} // verus!
