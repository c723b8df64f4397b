use medbill::rules::{entity_table, find_rule, rewrite, tag_table, ExtractionRule};

fn chars(s: &str) -> Vec<char> {
    s.chars().collect()
}

fn text(v: Vec<char>) -> String {
    v.into_iter().collect()
}

fn rule(pattern: &str, replacement: &str) -> (String, String) {
    (pattern.to_string(), replacement.to_string())
}

fn pairs(table: &Vec<ExtractionRule>) -> Vec<(String, String)> {
    table
        .iter()
        .map(|r| (r.pattern.iter().collect(), r.replacement.iter().collect()))
        .collect()
}

#[test]
fn the_tag_table_holds_the_layout_tags() {
    let dashes = "\n----------------------------------------\n";
    assert_eq!(
        pairs(&tag_table()),
        vec![
            rule("</p>", "\n"),
            rule("</div>", "\n"),
            rule("</tr>", "\n"),
            rule("</h1>", "\n"),
            rule("</h2>", "\n"),
            rule("</h3>", "\n"),
            rule("</h4>", "\n"),
            rule("</h5>", "\n"),
            rule("</h6>", "\n"),
            rule("<br>", "\n"),
            rule("<br/>", "\n"),
            rule("<br />", "\n"),
            rule("<hr>", dashes),
            rule("<hr/>", dashes),
            rule("<hr />", dashes),
            rule("</td>", "  "),
            rule("</th>", "  "),
        ]
    );
    assert_eq!(dashes.len(), 42);
}

#[test]
fn the_entity_table_holds_the_entities() {
    assert_eq!(
        pairs(&entity_table()),
        vec![
            rule("&nbsp;", " "),
            rule("&amp;", "&"),
            rule("&lt;", "<"),
            rule("&gt;", ">"),
            rule("&quot;", "\""),
            rule("&#39;", "'"),
            rule("&#8377;", "Rs."),
            rule("\u{20b9}", "Rs."),
            rule("&times;", "x"),
            rule("\u{d7}", "x"),
        ]
    );
}

#[test]
fn every_entity_is_decoded() {
    let decoded = rewrite(
        &chars("a&nbsp;b &amp; &lt;c&gt; &quot;d&quot; &#39;e&#39; &#8377;1 \u{20b9}2 3&times;4 5\u{d7}6"),
        &entity_table(),
        false,
    );
    assert_eq!(text(decoded), "a b & <c> \"d\" 'e' Rs.1 Rs.2 3x4 5x6");
}

#[test]
fn entities_are_decoded_once_and_with_their_case() {
    assert_eq!(text(rewrite(&chars("&amp;amp; &amp;lt;"), &entity_table(), false)), "&amp; &lt;");
    assert_eq!(text(rewrite(&chars("&AMP; &Lt; &amp"), &entity_table(), false)), "&AMP; &Lt; &amp");
    assert_eq!(text(rewrite(&chars("&unknown; &"), &entity_table(), false)), "&unknown; &");
}

#[test]
fn tags_are_matched_without_regard_to_case() {
    assert_eq!(text(rewrite(&chars("a<BR>b</P>c<Br />d"), &tag_table(), true)), "a\nb\nc\nd");
    assert_eq!(text(rewrite(&chars("a<BR>b"), &tag_table(), false)), "a<BR>b");
}

#[test]
fn the_first_rule_that_fits_is_taken() {
    let table = vec![
        ExtractionRule::new("ab", "1"),
        ExtractionRule::new("a", "2"),
        ExtractionRule::new("abc", "3"),
        ExtractionRule::new("", "4"),
    ];
    assert_eq!(find_rule(&chars("abc"), 0, &table, false), Some(0));
    assert_eq!(find_rule(&chars("abc"), 1, &table, false), None);
    assert_eq!(find_rule(&chars("ac"), 0, &table, false), Some(1));
    assert_eq!(find_rule(&chars("abc"), 3, &table, false), None);
    assert_eq!(text(rewrite(&chars("abcaab"), &table, false)), "1c21");
    assert_eq!(text(rewrite(&chars(""), &table, false)), "");
}
