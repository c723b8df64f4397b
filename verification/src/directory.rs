//! The printer directory: which printers the system has and which of them
//! is the default.
//!
//! Nothing is remembered between two calls: the operator may change the
//! default printer between two bills, so every answer is read from a fresh
//! query. The library builds the query and reads its outcome; running it is
//! the caller's part.

use crate::model::{
    owned, texts, CommandLine, CommandLineModel, Outcome, OutcomeModel, PrintError,
    PrintErrorModel, PrinterDescriptor, PrinterDescriptorModel,
};
use crate::text::{
    chars_of, contains, find, first_match, lemma_first_match_is_first, lines_of, rows,
    split_lines, string_of, trim, trimmed,
};
use vstd::prelude::*;

verus! {

/// The script that prints the name of the default printer.
pub open spec fn default_printer_script() -> Seq<char> {
    "(Get-CimInstance -Class Win32_Printer | Where-Object {$_.Default -eq $true}).Name"@
}

/// The script that prints the names of all installed printers, one per line.
pub open spec fn list_printers_script() -> Seq<char> {
    "Get-CimInstance -Class Win32_Printer | Select-Object -ExpandProperty Name"@
}

/// The command that runs a query script in a shell that loads no profile and
/// never prompts.
pub open spec fn query_line(script: Seq<char>) -> CommandLineModel {
    CommandLineModel {
        program: "powershell"@,
        arguments: seq!["-NoProfile"@, "-NonInteractive"@, "-Command"@, script],
    }
}

/// The name that a default-printer query reported: its output without the
/// white space around it, if the query ran and anything is left.
pub open spec fn default_name(outcome: OutcomeModel) -> Option<Seq<char>> {
    match outcome {
        OutcomeModel::Completed { stdout, stderr } => if trimmed(stdout).len() > 0 {
            Some(trimmed(stdout))
        } else {
            None
        },
        _ => None,
    }
}

/// The lines from index `from` on, trimmed, without those that are empty then.
pub open spec fn names_from(lines: Seq<Seq<char>>, from: int) -> Seq<Seq<char>>
    decreases lines.len() - from,
{
    if from < 0 || from >= lines.len() {
        Seq::empty()
    } else {
        let name = trimmed(lines[from]);
        if name.len() > 0 {
            seq![name] + names_from(lines, from + 1)
        } else {
            names_from(lines, from + 1)
        }
    }
}

/// The printer names that a listing query reported: one per line of its
/// output that is not blank. A query that did not run reports none.
pub open spec fn printer_names(outcome: OutcomeModel) -> Seq<Seq<char>> {
    match outcome {
        OutcomeModel::Completed { stdout, stderr } => names_from(lines_of(stdout), 0),
        _ => Seq::empty(),
    }
}

/// The printers with the given names, the one named `default` marked.
pub open spec fn described(names: Seq<Seq<char>>, default: Option<Seq<char>>) -> Seq<
    PrinterDescriptorModel,
> {
    Seq::new(
        names.len(),
        |i: int| PrinterDescriptorModel { name: names[i], is_default: default == Some(names[i]) },
    )
}

/// The views of a list of printers, in its order.
pub open spec fn descriptor_models(list: Seq<PrinterDescriptor>) -> Seq<PrinterDescriptorModel> {
    list.map_values(|d: PrinterDescriptor| d@)
}

/// A printer that puts out no paper: one that writes documents to files or
/// sends them to a note-taking program. Names are compared without regard to case.
pub open spec fn is_virtual_printer(name: Seq<char>) -> bool {
    contains(name, "pdf"@, true) || contains(name, "onenote"@, true)
}

/// A pattern stands in a text exactly if a search from the start finds it.
pub proof fn lemma_contains_iff_found(text: Seq<char>, pat: Seq<char>, fold: bool)
    ensures
        contains(text, pat, fold) <==> first_match(text, 0, pat, fold).is_some(),
{
    lemma_first_match_is_first(text, 0, pat, fold);
}

fn query(script: &str) -> (command: CommandLine)
    ensures
        command@ == query_line(script@),
{
    let mut arguments: Vec<String> = Vec::new();
    arguments.push(owned("-NoProfile"));
    arguments.push(owned("-NonInteractive"));
    arguments.push(owned("-Command"));
    arguments.push(owned(script));
    assert(texts(arguments@) == seq!["-NoProfile"@, "-NonInteractive"@, "-Command"@, script@]);
    CommandLine { program: owned("powershell"), arguments }
}

/// The command that asks the system for the name of its default printer.
pub fn default_printer_query() -> (command: CommandLine)
    ensures
        command@ == query_line(default_printer_script()),
{
    query("(Get-CimInstance -Class Win32_Printer | Where-Object {$_.Default -eq $true}).Name")
}

/// The command that asks the system for the names of its printers.
pub fn list_printers_query() -> (command: CommandLine)
    ensures
        command@ == query_line(list_printers_script()),
{
    query("Get-CimInstance -Class Win32_Printer | Select-Object -ExpandProperty Name")
}

/// Reads the outcome of a default-printer query. The answer is the printer's
/// name exactly when the query ran and printed one; in every other case,
/// whether no printer is marked as default or the query could not be run, it
/// is `NoDefaultPrinter`.
pub fn default_printer(outcome: &Outcome) -> (r: Result<String, PrintError>)
    ensures
        match r {
            Ok(name) => default_name(outcome@) == Some(name@),
            Err(error) => default_name(outcome@).is_none() && error@
                == PrintErrorModel::NoDefaultPrinter,
        },
{
    match outcome {
        Outcome::Completed { stdout, .. } => {
            let name = trim(&chars_of(stdout.as_str()));
            if name.len() > 0 {
                Ok(string_of(&name))
            } else {
                Err(PrintError::NoDefaultPrinter)
            }
        },
        _ => Err(PrintError::NoDefaultPrinter),
    }
}

/// Reads the outcome of a listing query: the names of the installed printers
/// in the order in which the system gave them. A query that could not be run
/// gives the empty list, as does a system without printers.
pub fn list_printers(outcome: &Outcome) -> (names: Vec<String>)
    ensures
        texts(names@) == printer_names(outcome@),
{
    let mut names: Vec<String> = Vec::new();
    match outcome {
        Outcome::Completed { stdout, .. } => {
            let lines = split_lines(&chars_of(stdout.as_str()));
            let mut i: usize = 0;
            assert(texts(names@) == Seq::<Seq<char>>::empty());
            while i < lines.len()
                invariant
                    i <= lines.len(),
                    names_from(rows(lines@), 0) == texts(names@) + names_from(
                        rows(lines@),
                        i as int,
                    ),
                decreases lines.len() - i,
            {
                let name = trim(&lines[i]);
                if name.len() > 0 {
                    let ghost before = texts(names@);
                    let owned_name = string_of(&name);
                    names.push(owned_name);
                    assert(texts(names@) == before.push(name@));
                }
                i += 1;
            }
            names
        },
        _ => {
            assert(texts(names@) == Seq::<Seq<char>>::empty());
            names
        },
    }
}

/// The installed printers as they are at the moment of asking, from the
/// outcomes of a listing query and of a default-printer query.
pub fn snapshot(listing: &Outcome, default: &Outcome) -> (printers: Vec<PrinterDescriptor>)
    ensures
        descriptor_models(printers@) == described(printer_names(listing@), default_name(default@)),
{
    let names = list_printers(listing);
    let marked = default_printer(default);
    let mut printers: Vec<PrinterDescriptor> = Vec::new();
    let mut i: usize = 0;
    while i < names.len()
        invariant
            i <= names.len(),
            texts(names@) == printer_names(listing@),
            match marked {
                Ok(name) => default_name(default@) == Some(name@),
                Err(error) => default_name(default@).is_none(),
            },
            descriptor_models(printers@) == described(
                printer_names(listing@),
                default_name(default@),
            ).take(i as int),
        decreases names.len() - i,
    {
        let is_default = match &marked {
            Ok(name) => names[i] == *name,
            Err(_) => false,
        };
        let ghost before = descriptor_models(printers@);
        let printer = PrinterDescriptor { name: names[i].clone(), is_default };
        assert(printer.name@ == texts(names@)[i as int]);
        printers.push(printer);
        assert(descriptor_models(printers@) == before.push(printer@));
        i += 1;
    }
    printers
}

/// Whether the printer is one that puts out no paper.
pub fn is_virtual(name: &str) -> (r: bool)
    ensures
        r == is_virtual_printer(name@),
{
    let text = chars_of(name);
    let pdf = chars_of("pdf");
    let onenote = chars_of("onenote");
    proof {
        lemma_contains_iff_found(text@, pdf@, true);
        lemma_contains_iff_found(text@, onenote@, true);
    }
    find(&text, 0, &pdf, true).is_some() || find(&text, 0, &onenote, true).is_some()
}

} // verus!
