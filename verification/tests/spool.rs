use medbill::model::{Outcome, PrintError, PrintResult};
use medbill::spool::{command, is_quote_char, quote, result, script, verdict};

fn text_of(chars: Vec<char>) -> String {
    chars.into_iter().collect()
}

/// Reads the inside of a single-quoted string as the shell does: two quotes
/// in a row give the second, one quote alone ends the string.
fn read_back(script: &str, from: usize) -> (String, usize) {
    let chars: Vec<char> = script.chars().collect();
    let mut out = String::new();
    let mut at = from;
    while at < chars.len() {
        if is_quote_char(chars[at]) {
            if at + 1 < chars.len() && is_quote_char(chars[at + 1]) {
                out.push(chars[at + 1]);
                at += 2;
            } else {
                break;
            }
        } else {
            out.push(chars[at]);
            at += 1;
        }
    }
    (out, at)
}

#[test]
fn only_quotes_are_written_twice() {
    assert_eq!(text_of(quote("it's `x` $y \"z\"")), "it''s `x` $y \"z\"");
    assert_eq!(text_of(quote("plain")), "plain");
    assert_eq!(text_of(quote("")), "");
    assert_eq!(text_of(quote("'@\n'@")), "''@\n''@");
    assert_eq!(text_of(quote("\u{2018}a\u{2019}\u{201a}\u{201b}")), "\u{2018}\u{2018}a\u{2019}\u{2019}\u{201a}\u{201a}\u{201b}\u{201b}");
}

#[test]
fn the_shell_knows_five_single_quotes() {
    for c in ['\'', '\u{2018}', '\u{2019}', '\u{201a}', '\u{201b}'] {
        assert!(is_quote_char(c));
    }
    for c in ['"', '`', '\u{201c}', '\u{201d}', 'a', '@', '$', '\n'] {
        assert!(!is_quote_char(c));
    }
}

#[test]
fn script_for_the_default_printer() {
    assert_eq!(
        script("TOTAL: 100", &None),
        "$content = 'TOTAL: 100'\nOut-Printer  -InputObject $content\n"
    );
}

#[test]
fn script_for_a_named_printer() {
    assert_eq!(
        script("it's", &Some("Bob's".to_string())),
        "$content = 'it''s'\nOut-Printer -PrinterName 'Bob''s' -InputObject $content\n"
    );
}

#[test]
fn the_text_is_read_back_as_it_is() {
    for text in [
        "it's `x`",
        "",
        "'",
        "''",
        "'@\n'@\n",
        "a\nb\r\n$(Remove-Item x)\n",
        "'; Remove-Item x; '",
        "\u{2019}; Remove-Item x; \u{2018}",
        "TOTAL: 100\n\n\n\n\n\n\u{c}",
    ] {
        for name in ["TVS MSP 250", "Bob's", "x' -Foo 'y", "\u{2019}"] {
            let body = script(text, &Some(name.to_string()));
            let open = "$content = ".chars().count();
            assert_eq!(body.chars().nth(open), Some('\''));
            let (read, end) = read_back(&body, open + 1);
            assert_eq!(read, text);
            let rest: String = body.chars().skip(end).collect();
            let start = "'\nOut-Printer -PrinterName ";
            assert!(rest.starts_with(start), "{:?}", rest);
            let name_open = end + start.chars().count();
            let (read_name, name_end) = read_back(&body, name_open + 1);
            assert_eq!(read_name, name);
            let tail: String = body.chars().skip(name_end).collect();
            assert_eq!(tail, "' -InputObject $content\n");
        }
    }
}

#[test]
fn command_runs_the_script_in_a_hidden_shell() {
    let line = command("x", &Some("P".to_string()));
    assert_eq!(line.program, "powershell");
    assert_eq!(
        line.arguments,
        vec![
            "-NoProfile".to_string(),
            "-NonInteractive".to_string(),
            "-WindowStyle".to_string(),
            "Hidden".to_string(),
            "-ExecutionPolicy".to_string(),
            "Bypass".to_string(),
            "-Command".to_string(),
            "$content = 'x'\nOut-Printer -PrinterName 'P' -InputObject $content\n".to_string(),
        ]
    );
}

#[test]
fn an_empty_error_stream_is_a_success() {
    let outcome = Outcome::Completed { stdout: String::new(), stderr: String::new() };
    assert_eq!(verdict(&outcome), None);
    assert_eq!(
        result(&outcome, "TVS MSP 250".to_string(), Vec::new()),
        PrintResult::Success {
            message: "Raw print job sent".to_string(),
            printer_name: "TVS MSP 250".to_string()
        }
    );
}

#[test]
fn anything_on_the_error_stream_is_a_rejection() {
    let outcome =
        Outcome::Completed { stdout: "SUCCESS".to_string(), stderr: "Access denied".to_string() };
    assert_eq!(
        verdict(&outcome),
        Some(PrintError::SpoolRejected { detail: "Print failed: Access denied".to_string() })
    );
    assert_eq!(
        result(&outcome, "P".to_string(), vec![PrintError::EngineTimeout]),
        PrintResult::Failure {
            reason: PrintError::SpoolRejected { detail: "Print failed: Access denied".to_string() },
            earlier: vec![PrintError::EngineTimeout],
        }
    );
}

#[test]
fn a_spooler_that_did_not_run_is_a_rejection() {
    assert_eq!(
        verdict(&Outcome::Failed { detail: "no shell".to_string() }),
        Some(PrintError::SpoolRejected { detail: "Failed to execute: no shell".to_string() })
    );
    assert_eq!(
        verdict(&Outcome::TimedOut),
        Some(PrintError::SpoolRejected {
            detail: "Print failed: the spooler did not answer in time".to_string()
        })
    );
}
