use medbill::extract::extract;

const PAD: &str = "\n\n\n\n\n\n\u{c}";

fn printed(body: &str) -> String {
    format!("{}{}", body, PAD)
}

#[test]
fn empty_markup_gives_only_padding() {
    let out = extract("");
    assert_eq!(out, PAD);
    assert!(!out.is_empty());
    assert!(out.chars().all(|c| c.is_whitespace()));
}

#[test]
fn pre_block_is_printed_as_it_stands() {
    let out = extract("<html><body><pre>TOTAL: 100</pre></body></html>");
    assert_eq!(out, printed("TOTAL: 100"));
}

#[test]
fn pre_block_keeps_inner_spacing_and_is_trimmed() {
    let out = extract("<p>ignored</p><PRE class=\"r\">\n  ITEM     QTY\n  Soap       2\n\n\n\n\nEND  \n</PRE>tail");
    assert_eq!(out, printed("ITEM     QTY\n  Soap       2\n\n\n\n\nEND"));
}

#[test]
fn ampersand_entity_is_decoded() {
    assert_eq!(extract("A &amp; B"), printed("A & B"));
}

#[test]
fn rupee_sign_is_written_as_rs() {
    assert_eq!(extract("Rs&#8377;"), printed("RsRs."));
    assert_eq!(extract("\u{20b9}120"), printed("Rs.120"));
    assert_eq!(extract("<pre>&#8377;5 \u{d7} 2 &times; 3</pre>"), printed("Rs.5 x 2 x 3"));
}

#[test]
fn script_and_style_blocks_never_reach_the_text() {
    let out = extract("a<script>var x = 1;</script>b<STYLE type=\"text/css\">p { color: red }</STYLE>c<!-- note -->d");
    assert_eq!(out, printed("abcd"));
}

#[test]
fn script_spelled_by_two_cuts_is_cut_as_well() {
    let out = extract("x<scr<script></script>ipt>alert(1)</script>y");
    assert_eq!(out, printed("xy"));
    assert!(!out.contains("<script"));
}

#[test]
fn unterminated_script_runs_to_the_end() {
    assert_eq!(extract("before<script>never closed"), printed("before"));
}

#[test]
fn unterminated_tag_runs_to_the_end() {
    assert_eq!(extract("total<b unfinished"), printed("total"));
}

#[test]
fn more_than_two_blank_lines_become_one() {
    assert_eq!(extract("a\n\n\n\nb"), printed("a\n\nb"));
    assert_eq!(extract("a\n \n\t\n\n\n\nb"), printed("a\n\nb"));
}

#[test]
fn one_or_two_blank_lines_stay() {
    assert_eq!(extract("a\n\nb"), printed("a\n\nb"));
    assert_eq!(extract("a\n\n\nb"), printed("a\n\n\nb"));
}

#[test]
fn layout_tags_become_text() {
    let out = extract("<body><h1>Shop</h1><p>Bill</p><table><tr><td>Soap</td><td>2</td></tr></table><hr>Thanks<br/>Bye</body>");
    assert_eq!(
        out,
        printed("Shop\nBill\nSoap  2\n\n----------------------------------------\nThanks\nBye")
    );
}

#[test]
fn body_is_preferred_over_the_head() {
    assert_eq!(extract("<html><head><title>T</title></head><body class=\"x\">Hello</body>tail</html>"), printed("Hello"));
}

#[test]
fn long_gaps_become_two_spaces() {
    assert_eq!(extract("Soap      2\t\t10"), printed("Soap  2  10"));
    assert_eq!(extract("a b\tc"), printed("a b\tc"));
}

#[test]
fn lines_that_look_like_css_are_dropped() {
    assert_eq!(extract("one\nbody { margin: 0 }\n@media print\ntwo"), printed("one\ntwo"));
}

#[test]
fn lines_are_trimmed() {
    assert_eq!(extract("  one  \r\n\ttwo\u{a0}"), printed("one\ntwo"));
}

#[test]
fn a_printed_receipt_prints_the_same_again() {
    for markup in [
        "<html><body><pre>TOTAL: 100</pre></body></html>",
        "<pre>\n  ITEM     QTY\n  Soap       2 \u{20b9}40\n\n\n\nEND  \n</pre>",
        "<pre></pre>",
        "<pre>   </pre>",
    ] {
        let first = extract(markup);
        let body = first.strip_suffix(PAD).unwrap();
        assert!(!body.contains('<') && !body.contains('&'));
        let again = extract(&format!("<pre>{}</pre>", body));
        assert_eq!(again, first);
    }
}

#[test]
fn a_receipt_with_markup_signs_does_not_print_the_same_again() {
    let first = extract("<pre>&amp;amp;</pre>");
    assert_eq!(first, printed("&amp;"));
    assert_eq!(extract("<pre>&amp;</pre>"), printed("&"));
}

#[test]
fn script_written_as_text_is_printed_as_text() {
    assert_eq!(extract("&lt;script"), printed("<script"));
    assert_eq!(extract("<pre>&lt;STYLE&gt;</pre>"), printed("<STYLE>"));
}

#[test]
fn nested_and_broken_blocks_leave_nothing_behind() {
    for markup in [
        "<script><script>a</script>b</script>c",
        "<sc<!-- x -->ript>alert(1)</script>",
        "<st<style>yle>p{}</style>",
        "<<script></script>script>x",
        "<pre><scr<style></style>ipt>x</pre>",
        "<SCRIPT SRC=x>",
        "<style",
        "a<!-- <script> -->b<script>c",
        "<!-- never closed <pre>x</pre>",
    ] {
        let out = extract(markup).to_lowercase();
        assert!(!out.contains("<script"), "{:?} gave {:?}", markup, out);
        assert!(!out.contains("<style"), "{:?} gave {:?}", markup, out);
        assert!(!out.contains("<!--"), "{:?} gave {:?}", markup, out);
    }
}

#[test]
fn comments_hide_what_is_in_them() {
    assert_eq!(extract("a<!-- <pre>hidden</pre> -->b"), printed("ab"));
    assert_eq!(extract("a<!-->b-->c"), printed("ac"));
}

#[test]
fn first_pre_block_wins() {
    assert_eq!(extract("<pre>one</pre><pre>two</pre>"), printed("one"));
    assert_eq!(extract("<pre>one<pre>two</pre>three</pre>"), printed("one<pre>two"));
}

#[test]
fn unterminated_pre_runs_to_the_end() {
    assert_eq!(extract("<body><pre>LINE 1\nLINE 2"), printed("LINE 1\nLINE 2"));
    assert_eq!(extract("x<pre"), printed(""));
}

#[test]
fn pre_block_keeps_its_tags_and_its_gaps() {
    assert_eq!(extract("<pre>a   <b>b</b>\n\n\n\n{c}</pre>"), printed("a   <b>b</b>\n\n\n\n{c}"));
}

#[test]
fn unterminated_body_runs_to_the_end() {
    assert_eq!(extract("<head>x</head><body>Hello"), printed("Hello"));
}

#[test]
fn no_receipt_shows_a_rupee_or_a_multiplication_sign() {
    for markup in ["\u{20b9}", "<pre>\u{20b9}\u{d7}</pre>", "a \u{d7} b &#8377; &times;", "<p>\u{20b9}</p>"] {
        let out = extract(markup);
        assert!(!out.contains('\u{20b9}') && !out.contains('\u{d7}'));
    }
    assert_eq!(extract("2 \u{d7} \u{20b9}50"), printed("2 x Rs.50"));
}

#[test]
fn every_receipt_ends_with_the_padding() {
    for markup in ["", "x", "<pre>y</pre>", "<script>", "\n\n\n\n\n\n\n\n"] {
        assert!(extract(markup).ends_with(PAD));
    }
}

#[test]
fn blank_runs_at_the_edges_are_squeezed_like_any_other() {
    assert_eq!(extract("\n\n\n\na"), printed("\na"));
    assert_eq!(extract("a\n\n\n\n\n"), printed("a\n"));
    assert_eq!(extract("\n\n\n\n\n\n\n\n"), printed(""));
    assert_eq!(extract("\n"), printed("\n"));
}

#[test]
fn dropped_lines_do_not_hide_a_long_blank_run() {
    assert_eq!(extract("a\n\n\np { x }\n\n\nb"), printed("a\n\nb"));
}

#[test]
fn a_table_becomes_columns() {
    let markup = "<table>\n<tr><th>Item</th><th>Qty</th></tr>\n<tr><td>Soap</td><td>2</td></tr>\n</table>";
    assert_eq!(extract(markup), printed("\nItem  Qty\n\nSoap  2\n\n"));
}
