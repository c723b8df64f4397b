//! The raw spool sender: plain text handed to the print spooler as it is.
//!
//! The text travels inside a script as a single-quoted string, and so does
//! the printer's name. The shell reads such a string as it stands, with one
//! exception: two quotes in a row stand for one. So every quote of the text
//! is written twice, and nothing else is touched; what the shell reads back
//! is the text, character for character, and the string ends where the
//! library ended it. The shell takes four typographic quotes for single
//! quotes as well; they are treated alike.

use crate::model::{
    error_models, owned, prefixed, text_of, texts, CommandLine, CommandLineModel, Outcome,
    OutcomeModel, PrintError, PrintErrorModel, PrintResult, PrintResultModel,
};
use crate::text::{chars_of, push_all, string_of};
use vstd::prelude::*;

verus! {

/// A character that the shell reads as a single quote: the plain one, and
/// the typographic ones U+2018, U+2019, U+201A and U+201B.
pub open spec fn is_quote(c: char) -> bool {
    c == '\'' || c == '\u{2018}' || c == '\u{2019}' || c == '\u{201a}' || c == '\u{201b}'
}

/// The text from `at` on with every quote written twice.
pub open spec fn quoted_from(text: Seq<char>, at: int) -> Seq<char>
    decreases text.len() - at,
{
    if at < 0 || at >= text.len() {
        Seq::empty()
    } else if is_quote(text[at]) {
        seq![text[at], text[at]] + quoted_from(text, at + 1)
    } else {
        seq![text[at]] + quoted_from(text, at + 1)
    }
}

/// The text with every quote written twice.
pub open spec fn quoted(text: Seq<char>) -> Seq<char> {
    quoted_from(text, 0)
}

/// The text as a single-quoted string of the script.
pub open spec fn literal(text: Seq<char>) -> Seq<char> {
    seq!['\''] + quoted(text) + seq!['\'']
}

/// Where the single-quoted string whose inside begins at `at` ends: at the
/// first quote that no second quote follows, or at the end of the script
/// where there is none.
pub open spec fn quoted_end(script: Seq<char>, at: int) -> int
    decreases script.len() - at,
{
    if at < 0 || at >= script.len() {
        script.len() as int
    } else if is_quote(script[at]) {
        if at + 1 < script.len() && is_quote(script[at + 1]) {
            quoted_end(script, at + 2)
        } else {
            at
        }
    } else {
        quoted_end(script, at + 1)
    }
}

/// What the shell reads from the single-quoted string whose inside begins at
/// `at`: every character up to the end of the string as it stands, and one
/// quote, the second, for two in a row.
pub open spec fn read_quoted(script: Seq<char>, at: int) -> Seq<char>
    decreases script.len() - at,
{
    if at < 0 || at >= script.len() {
        Seq::empty()
    } else if is_quote(script[at]) {
        if at + 1 < script.len() && is_quote(script[at + 1]) {
            seq![script[at + 1]] + read_quoted(script, at + 2)
        } else {
            Seq::empty()
        }
    } else {
        seq![script[at]] + read_quoted(script, at + 1)
    }
}

/// The part of the script that names the printer; empty for the default printer.
pub open spec fn printer_argument(target: Option<Seq<char>>) -> Seq<char> {
    match target {
        Some(name) => "-PrinterName "@ + literal(name),
        None => Seq::empty(),
    }
}

/// The script that sends the text to the printer.
pub open spec fn spool_script(text: Seq<char>, target: Option<Seq<char>>) -> Seq<char> {
    "$content = "@ + literal(text) + "\nOut-Printer "@ + printer_argument(target)
        + " -InputObject $content\n"@
}

/// The command that runs the script, in a hidden shell that loads no profile
/// and never prompts.
pub open spec fn spool_line(text: Seq<char>, target: Option<Seq<char>>) -> CommandLineModel {
    CommandLineModel {
        program: "powershell"@,
        arguments: seq![
            "-NoProfile"@,
            "-NonInteractive"@,
            "-WindowStyle"@,
            "Hidden"@,
            "-ExecutionPolicy"@,
            "Bypass"@,
            "-Command"@,
            spool_script(text, target),
        ],
    }
}

/// How a run of the spooler is judged. An empty error stream is a success,
/// whatever else was printed: the spooler reports no completion. Anything on
/// the error stream is a rejection, and so is a run that could not be
/// started or did not end; the detail says which.
pub open spec fn spool_verdict(outcome: OutcomeModel) -> Option<PrintErrorModel> {
    match outcome {
        OutcomeModel::Completed { stdout, stderr } => if stderr.len() == 0 {
            None
        } else {
            Some(PrintErrorModel::SpoolRejected { detail: "Print failed: "@ + stderr })
        },
        OutcomeModel::Failed { detail } => Some(
            PrintErrorModel::SpoolRejected { detail: "Failed to execute: "@ + detail },
        ),
        OutcomeModel::TimedOut => Some(
            PrintErrorModel::SpoolRejected {
                detail: "Print failed: the spooler did not answer in time"@,
            },
        ),
    }
}

/// The result of sending text to `printer_name` once the spooler has run,
/// after the strategies whose errors are listed under `earlier` have failed.
pub open spec fn spool_result(
    outcome: OutcomeModel,
    printer_name: Seq<char>,
    earlier: Seq<PrintErrorModel>,
) -> PrintResultModel {
    match spool_verdict(outcome) {
        None => PrintResultModel::Success { message: "Raw print job sent"@, printer_name },
        Some(reason) => PrintResultModel::Failure { reason, earlier },
    }
}

proof fn lemma_reading_in_back(front: Seq<char>, back: Seq<char>, at: int)
    requires
        0 <= at <= back.len(),
    ensures
        quoted_end(front + back, front.len() as int + at) == front.len() + quoted_end(back, at),
        read_quoted(front + back, front.len() as int + at) == read_quoted(back, at),
    decreases back.len() - at,
{
    let all = front + back;
    if at < back.len() {
        assert(all[front.len() + at] == back[at]);
        if at + 1 < back.len() {
            assert(all[front.len() + at + 1] == back[at + 1]);
        }
        if is_quote(back[at]) {
            if at + 1 < back.len() && is_quote(back[at + 1]) {
                lemma_reading_in_back(front, back, at + 2);
            }
        } else {
            lemma_reading_in_back(front, back, at + 1);
        }
    }
}

proof fn lemma_quoted_from_is_read_back(text: Seq<char>, at: int, rest: Seq<char>)
    requires
        0 <= at <= text.len(),
        rest.len() == 0 || !is_quote(rest[0]),
    ensures
        quoted_end(quoted_from(text, at) + seq!['\''] + rest, 0) == quoted_from(text, at).len(),
        read_quoted(quoted_from(text, at) + seq!['\''] + rest, 0) == text.subrange(
            at,
            text.len() as int,
        ),
    decreases text.len() - at,
{
    let all = quoted_from(text, at) + seq!['\''] + rest;
    if at < text.len() {
        let later = quoted_from(text, at + 1) + seq!['\''] + rest;
        lemma_quoted_from_is_read_back(text, at + 1, rest);
        let piece = if is_quote(text[at]) {
            seq![text[at], text[at]]
        } else {
            seq![text[at]]
        };
        assert(all =~= piece + later);
        lemma_reading_in_back(piece, later, 0);
        assert(all[0] == text[at]);
        if is_quote(text[at]) {
            assert(all[1] == text[at]);
        }
        assert(text.subrange(at, text.len() as int) =~= seq![text[at]] + text.subrange(
            at + 1,
            text.len() as int,
        ));
    } else {
        assert(all =~= seq!['\''] + rest);
        assert(all[0] == '\'');
        if rest.len() > 0 {
            assert(all[1] == rest[0]);
        }
        assert(text.subrange(at, text.len() as int) =~= Seq::<char>::empty());
    }
}

/// A single-quoted string of the script is read back as the text it was
/// written for, wherever it stands in the script: the shell reads the text
/// itself, character for character, and the string ends at the quote that
/// the library closed it with. Nothing of the text is read as script.
pub proof fn lemma_literal_is_read_back(front: Seq<char>, text: Seq<char>, rest: Seq<char>)
    requires
        rest.len() == 0 || !is_quote(rest[0]),
    ensures
        (front + literal(text) + rest)[front.len() as int] == '\'',
        read_quoted(front + literal(text) + rest, front.len() as int + 1) == text,
        quoted_end(front + literal(text) + rest, front.len() as int + 1) == front.len() + 1 + quoted(
            text,
        ).len(),
        (front + literal(text) + rest)[front.len() as int + 1 + quoted(text).len()]
            == '\'',
{
    let all = front + literal(text) + rest;
    let opened = front + seq!['\''];
    let back = quoted(text) + seq!['\''] + rest;
    assert(all =~= opened + back);
    lemma_quoted_from_is_read_back(text, 0, rest);
    lemma_reading_in_back(opened, back, 0);
    assert(text.subrange(0, text.len() as int) =~= text);
}

/// The script hands the spooler the text itself: the string that is given to
/// `$content` reads back as the text, and it ends before the line that names
/// the printer.
pub proof fn lemma_script_hands_over_the_text(text: Seq<char>, target: Option<Seq<char>>)
    ensures
        ({
            let front = "$content = "@;
            let script = spool_script(text, target);
            &&& script[front.len() as int] == '\''
            &&& read_quoted(script, front.len() as int + 1) == text
            &&& quoted_end(script, front.len() as int + 1) == front.len() + 1 + quoted(text).len()
        }),
{
    let front = "$content = "@;
    let rest = "\nOut-Printer "@ + printer_argument(target) + " -InputObject $content\n"@;
    reveal_strlit("\nOut-Printer ");
    assert(rest[0] == '\n');
    lemma_literal_is_read_back(front, text, rest);
    assert(spool_script(text, target) =~= front + literal(text) + rest);
}

/// The script names the printer that was asked for: the string behind
/// `-PrinterName` reads back as the name, and it ends before the rest of
/// the command.
pub proof fn lemma_script_names_the_printer(text: Seq<char>, name: Seq<char>)
    ensures
        ({
            let front = "$content = "@ + literal(text) + "\nOut-Printer "@ + "-PrinterName "@;
            let script = spool_script(text, Some(name));
            &&& script[front.len() as int] == '\''
            &&& read_quoted(script, front.len() as int + 1) == name
            &&& quoted_end(script, front.len() as int + 1) == front.len() + 1 + quoted(name).len()
        }),
{
    let front = "$content = "@ + literal(text) + "\nOut-Printer "@ + "-PrinterName "@;
    let rest = " -InputObject $content\n"@;
    reveal_strlit(" -InputObject $content\n");
    assert(rest[0] == ' ');
    lemma_literal_is_read_back(front, name, rest);
    assert(spool_script(text, Some(name)) =~= front + literal(name) + rest);
}

/// Whether the shell reads the character as a single quote.
pub fn is_quote_char(c: char) -> (r: bool)
    ensures
        r == is_quote(c),
{
    c == '\'' || c == '\u{2018}' || c == '\u{2019}' || c == '\u{201a}' || c == '\u{201b}'
}

/// The text with every quote written twice.
pub fn quote(text: &str) -> (r: Vec<char>)
    ensures
        r@ == quoted(text@),
{
    let source = chars_of(text);
    let mut r: Vec<char> = Vec::new();
    let mut at: usize = 0;
    while at < source.len()
        invariant
            at <= source.len(),
            source@ == text@,
            quoted(text@) == r@ + quoted_from(text@, at as int),
        decreases source.len() - at,
    {
        let c = source[at];
        r.push(c);
        if is_quote_char(c) {
            r.push(c);
        }
        at += 1;
    }
    r
}

fn push_literal(out: &mut Vec<char>, text: &str)
    ensures
        final(out)@ == old(out)@ + literal(text@),
{
    out.push('\'');
    push_all(out, &quote(text));
    out.push('\'');
}

/// The script that sends the text to the printer.
pub fn script(text: &str, target: &Option<String>) -> (r: String)
    ensures
        r@ == spool_script(text@, text_of(*target)),
{
    let mut out = chars_of("$content = ");
    push_literal(&mut out, text);
    push_all(&mut out, &chars_of("\nOut-Printer "));
    match target {
        Some(name) => {
            push_all(&mut out, &chars_of("-PrinterName "));
            push_literal(&mut out, name.as_str());
        },
        None => {},
    }
    push_all(&mut out, &chars_of(" -InputObject $content\n"));
    string_of(&out)
}

/// The command that sends the text to the named printer, or to the default
/// printer of the system where no name is given.
pub fn command(text: &str, target: &Option<String>) -> (line: CommandLine)
    ensures
        line@ == spool_line(text@, text_of(*target)),
{
    let mut arguments: Vec<String> = Vec::new();
    arguments.push(owned("-NoProfile"));
    arguments.push(owned("-NonInteractive"));
    arguments.push(owned("-WindowStyle"));
    arguments.push(owned("Hidden"));
    arguments.push(owned("-ExecutionPolicy"));
    arguments.push(owned("Bypass"));
    arguments.push(owned("-Command"));
    let body = script(text, target);
    arguments.push(body);
    assert(texts(arguments@) == seq![
        "-NoProfile"@,
        "-NonInteractive"@,
        "-WindowStyle"@,
        "Hidden"@,
        "-ExecutionPolicy"@,
        "Bypass"@,
        "-Command"@,
        body@,
    ]);
    CommandLine { program: owned("powershell"), arguments }
}

/// Judges a run of the spooler: `None` where the text was taken.
pub fn verdict(outcome: &Outcome) -> (r: Option<PrintError>)
    ensures
        match r {
            Some(error) => spool_verdict(outcome@) == Some(error@),
            None => spool_verdict(outcome@).is_none(),
        },
{
    match outcome {
        Outcome::Completed { stderr, .. } => {
            if stderr.as_str().is_empty() {
                None
            } else {
                Some(
                    PrintError::SpoolRejected {
                        detail: prefixed("Print failed: ", stderr.as_str()),
                    },
                )
            }
        },
        Outcome::Failed { detail } => Some(
            PrintError::SpoolRejected { detail: prefixed("Failed to execute: ", detail.as_str()) },
        ),
        Outcome::TimedOut => Some(
            PrintError::SpoolRejected {
                detail: owned("Print failed: the spooler did not answer in time"),
            },
        ),
    }
}

/// The result of sending text to `printer_name` once the spooler has run.
/// `earlier` lists the errors of the strategies that failed before.
pub fn result(outcome: &Outcome, printer_name: String, earlier: Vec<PrintError>) -> (r:
    PrintResult)
    ensures
        r@ == spool_result(outcome@, printer_name@, error_models(earlier@)),
{
    match verdict(outcome) {
        None => PrintResult::Success { message: owned("Raw print job sent"), printer_name },
        Some(reason) => PrintResult::Failure { reason, earlier },
    }
}

} // verus!
