//! The print dispatcher: one job, one printer, two strategies.
//!
//! A dispatch alternates decisions with work that only the operating system
//! can do. The decisions are made here, as a state machine: `dispatch` and
//! `step` each hand back the next state and the action that the caller has to
//! perform, and the caller reports what it saw as an `Outcome`. The caller
//! stops when it is handed `Finish`.
//!
//! The printer is resolved first: the job's own target, or else the default
//! printer of the system, asked for anew on every dispatch. A virtual printer
//! is refused before anything is written or run. Then the markup is written
//! to a temporary file, which is created, written and flushed in three
//! steps, and handed to the render engine; where the engine is missing,
//! cannot be started or runs out of time, the text is extracted from the
//! markup and sent to the spooler as it is.

use crate::directory::{
    default_name, default_printer, default_printer_query, default_printer_script, is_virtual,
    is_virtual_printer, query_line,
};
use crate::extract::{extract, extract_text};
use crate::model::{
    owned, prefixed, texts, CommandLine, CommandLineModel, Outcome, OutcomeModel, Platform,
    PrintError, PrintErrorModel, PrintJob, PrintJobModel, PrintResult, PrintResultModel,
};
use crate::rules::{models, rewrite, rewritten, rule, ExtractionRule, RuleModel};
use crate::spool::{command, result, spool_line, spool_result};
use crate::text::{chars_of, push_all, string_of, trim, trimmed};
use vstd::prelude::*;
use vstd::string::StringExecFns;

verus! {

/// The name of the temporary file. It is the same for every job: jobs are
/// dispatched one at a time, and each overwrites the file of the one before.
pub open spec fn temp_file_name() -> Seq<char> {
    "medbill_receipt.html"@
}

/// The path of the temporary file in the given directory.
pub open spec fn temp_path(temp_dir: Seq<char>) -> Seq<char> {
    if temp_dir.len() == 0 || temp_dir.last() == '\\' || temp_dir.last() == '/' {
        temp_dir + temp_file_name()
    } else {
        temp_dir + "\\"@ + temp_file_name()
    }
}

/// The one rule that turns a path into the path part of a URL.
pub open spec fn slash_rules() -> Seq<RuleModel> {
    seq![rule("\\", "/")]
}

/// The URL of a local file.
pub open spec fn file_url(path: Seq<char>) -> Seq<char> {
    "file:///"@ + rewritten(path, slash_rules(), false)
}

/// The places where the render engine is looked for, in this order.
pub open spec fn engine_candidates() -> Seq<Seq<char>> {
    seq![
        "C:\\Program Files (x86)\\Microsoft\\Edge\\Application\\msedge.exe"@,
        "C:\\Program Files\\Microsoft\\Edge\\Application\\msedge.exe"@,
    ]
}

/// The command that makes the engine print the file at `url` without a window
/// and without a dialog.
pub open spec fn engine_line(program: Seq<char>, url: Seq<char>) -> CommandLineModel {
    CommandLineModel {
        program,
        arguments: seq![
            "--headless"@,
            "--disable-gpu"@,
            "--run-all-compositor-stages-before-draw"@,
            "--print-to-pdf-no-header"@,
            "--kiosk-printing"@,
            url,
        ],
    }
}

/// How long the engine may run, in milliseconds.
pub open spec fn engine_timeout_ms() -> u64 {
    10000
}

/// What is said of work on the temporary file that did not end in time.
pub open spec fn file_timeout_detail() -> Seq<char> {
    "the file system did not answer in time"@
}

/// The error of a piece of work on the temporary file, if it failed:
/// `prefix` names the work, and what the caller saw follows it.
pub open spec fn file_failure(prefix: Seq<char>, outcome: OutcomeModel) -> Option<PrintErrorModel> {
    match outcome {
        OutcomeModel::Completed { stdout, stderr } => None,
        OutcomeModel::Failed { detail } => Some(
            PrintErrorModel::TempFileIO { detail: prefix + detail },
        ),
        OutcomeModel::TimedOut => Some(
            PrintErrorModel::TempFileIO { detail: prefix + file_timeout_detail() },
        ),
    }
}

/// Where a dispatch stands: the outside work it waits for, with what is
/// needed to go on once that work is reported.
#[derive(Clone, Debug, PartialEq, Eq)]
pub enum DispatchState {
    /// The default printer has been asked for.
    AwaitingPrinter { markup: String, temp_dir: String },
    /// The temporary file is being created.
    AwaitingCreate { markup: String, printer: String, path: String },
    /// The markup is being written to the temporary file.
    AwaitingWrite { markup: String, printer: String, path: String },
    /// The temporary file is being flushed.
    AwaitingFlush { markup: String, printer: String, path: String },
    /// One of the places where the engine may be is being looked at.
    AwaitingProbe { markup: String, printer: String, path: String, candidate: usize },
    /// The engine is running.
    AwaitingEngine { markup: String, printer: String },
    /// The spooler is running, after the engine failed with `engine_error`.
    AwaitingSpooler { printer: String, engine_error: PrintError },
    /// The job is over.
    Finished,
}

/// The view of `DispatchState`: the same value with every string as its characters.
pub enum DispatchStateModel {
    AwaitingPrinter { markup: Seq<char>, temp_dir: Seq<char> },
    AwaitingCreate { markup: Seq<char>, printer: Seq<char>, path: Seq<char> },
    AwaitingWrite { markup: Seq<char>, printer: Seq<char>, path: Seq<char> },
    AwaitingFlush { markup: Seq<char>, printer: Seq<char>, path: Seq<char> },
    AwaitingProbe { markup: Seq<char>, printer: Seq<char>, path: Seq<char>, candidate: nat },
    AwaitingEngine { markup: Seq<char>, printer: Seq<char> },
    AwaitingSpooler { printer: Seq<char>, engine_error: PrintErrorModel },
    Finished,
}

impl View for DispatchState {
    type V = DispatchStateModel;

    open spec fn view(&self) -> DispatchStateModel {
        match self {
            DispatchState::AwaitingPrinter { markup, temp_dir } => {
                DispatchStateModel::AwaitingPrinter { markup: markup@, temp_dir: temp_dir@ }
            },
            DispatchState::AwaitingCreate { markup, printer, path } => {
                DispatchStateModel::AwaitingCreate {
                    markup: markup@,
                    printer: printer@,
                    path: path@,
                }
            },
            DispatchState::AwaitingWrite { markup, printer, path } => {
                DispatchStateModel::AwaitingWrite {
                    markup: markup@,
                    printer: printer@,
                    path: path@,
                }
            },
            DispatchState::AwaitingFlush { markup, printer, path } => {
                DispatchStateModel::AwaitingFlush {
                    markup: markup@,
                    printer: printer@,
                    path: path@,
                }
            },
            DispatchState::AwaitingProbe { markup, printer, path, candidate } => {
                DispatchStateModel::AwaitingProbe {
                    markup: markup@,
                    printer: printer@,
                    path: path@,
                    candidate: *candidate as nat,
                }
            },
            DispatchState::AwaitingEngine { markup, printer } => {
                DispatchStateModel::AwaitingEngine { markup: markup@, printer: printer@ }
            },
            DispatchState::AwaitingSpooler { printer, engine_error } => {
                DispatchStateModel::AwaitingSpooler {
                    printer: printer@,
                    engine_error: engine_error@,
                }
            },
            DispatchState::Finished => DispatchStateModel::Finished,
        }
    }
}

/// What the caller has to do next.
#[derive(Clone, Debug, PartialEq, Eq)]
pub enum DispatchAction {
    /// Run the command that asks for the default printer and report its outcome.
    QueryDefaultPrinter { command: CommandLine },
    /// Create the file at `path`, empty, replacing what is there, and keep it open.
    CreateTempFile { path: String },
    /// Write `contents` to the file that was created.
    WriteTempFile { contents: String },
    /// Flush the file that was written, and close it.
    FlushTempFile,
    /// Report `Completed` if a file exists at `path`, `Failed` if none does.
    ProbeEngine { path: String },
    /// Run the render engine; report `TimedOut` if it has not ended after `timeout_ms`.
    RunEngine { command: CommandLine, timeout_ms: u64 },
    /// Run the spooler command and report its outcome.
    RunSpooler { command: CommandLine },
    /// Return the result to whoever asked for the print.
    Finish { result: PrintResult },
    /// The job is over and the outcome that was reported belongs to nothing.
    Nothing,
}

/// The view of `DispatchAction`: the same value with every string as its characters.
pub enum DispatchActionModel {
    QueryDefaultPrinter { command: CommandLineModel },
    CreateTempFile { path: Seq<char> },
    WriteTempFile { contents: Seq<char> },
    FlushTempFile,
    ProbeEngine { path: Seq<char> },
    RunEngine { command: CommandLineModel, timeout_ms: u64 },
    RunSpooler { command: CommandLineModel },
    Finish { result: PrintResultModel },
    Nothing,
}

impl View for DispatchAction {
    type V = DispatchActionModel;

    open spec fn view(&self) -> DispatchActionModel {
        match self {
            DispatchAction::QueryDefaultPrinter { command } => {
                DispatchActionModel::QueryDefaultPrinter { command: command@ }
            },
            DispatchAction::CreateTempFile { path } => DispatchActionModel::CreateTempFile {
                path: path@,
            },
            DispatchAction::WriteTempFile { contents } => DispatchActionModel::WriteTempFile {
                contents: contents@,
            },
            DispatchAction::FlushTempFile => DispatchActionModel::FlushTempFile,
            DispatchAction::ProbeEngine { path } => DispatchActionModel::ProbeEngine {
                path: path@,
            },
            DispatchAction::RunEngine { command, timeout_ms } => DispatchActionModel::RunEngine {
                command: command@,
                timeout_ms: *timeout_ms,
            },
            DispatchAction::RunSpooler { command } => DispatchActionModel::RunSpooler {
                command: command@,
            },
            DispatchAction::Finish { result } => DispatchActionModel::Finish { result: result@ },
            DispatchAction::Nothing => DispatchActionModel::Nothing,
        }
    }
}

/// The job ends with the given result.
pub open spec fn finish(result: PrintResultModel) -> (DispatchStateModel, DispatchActionModel) {
    (DispatchStateModel::Finished, DispatchActionModel::Finish { result })
}

/// The job ends with a failure that nothing came before.
pub open spec fn fail(reason: PrintErrorModel) -> (DispatchStateModel, DispatchActionModel) {
    finish(PrintResultModel::Failure { reason, earlier: Seq::empty() })
}

/// What follows once the printer is known: a virtual printer ends the job,
/// any other has the temporary file created. `is_default` says whether the
/// printer is the default printer of the system.
pub open spec fn with_printer(
    markup: Seq<char>,
    temp_dir: Seq<char>,
    printer: Seq<char>,
    is_default: bool,
) -> (DispatchStateModel, DispatchActionModel) {
    if is_virtual_printer(printer) {
        fail(PrintErrorModel::UnsuitablePrinter { name: printer, is_default })
    } else {
        (
            DispatchStateModel::AwaitingCreate { markup, printer, path: temp_path(temp_dir) },
            DispatchActionModel::CreateTempFile { path: temp_path(temp_dir) },
        )
    }
}

/// The second strategy: the text of the markup goes to the spooler.
pub open spec fn fall_back(markup: Seq<char>, printer: Seq<char>, engine_error: PrintErrorModel)
    -> (DispatchStateModel, DispatchActionModel) {
    (
        DispatchStateModel::AwaitingSpooler { printer, engine_error },
        DispatchActionModel::RunSpooler {
            command: spool_line(extract_text(markup), Some(printer)),
        },
    )
}

/// The engine is looked for at the place with the given index; past the last
/// place it counts as unavailable.
pub open spec fn probe(markup: Seq<char>, printer: Seq<char>, path: Seq<char>, candidate: nat)
    -> (DispatchStateModel, DispatchActionModel) {
    if candidate < engine_candidates().len() {
        (
            DispatchStateModel::AwaitingProbe { markup, printer, path, candidate },
            DispatchActionModel::ProbeEngine { path: engine_candidates()[candidate as int] },
        )
    } else {
        fall_back(markup, printer, PrintErrorModel::EngineUnavailable)
    }
}

/// The first step of a dispatch.
pub open spec fn start_model(platform: Platform, job: PrintJobModel, temp_dir: Seq<char>) -> (
    DispatchStateModel,
    DispatchActionModel,
) {
    if platform != Platform::Windows {
        fail(PrintErrorModel::PlatformUnsupported)
    } else if job.target.is_some() && trimmed(job.target.unwrap()).len() > 0 {
        with_printer(job.payload, temp_dir, trimmed(job.target.unwrap()), false)
    } else {
        (
            DispatchStateModel::AwaitingPrinter { markup: job.payload, temp_dir },
            DispatchActionModel::QueryDefaultPrinter {
                command: query_line(default_printer_script()),
            },
        )
    }
}

/// Every later step of a dispatch: from where it stands and what the caller
/// saw to where it stands next and what the caller has to do.
pub open spec fn step_model(state: DispatchStateModel, outcome: OutcomeModel) -> (
    DispatchStateModel,
    DispatchActionModel,
) {
    match state {
        DispatchStateModel::AwaitingPrinter { markup, temp_dir } => match default_name(outcome) {
            Some(name) => with_printer(markup, temp_dir, name, true),
            None => fail(PrintErrorModel::NoDefaultPrinter),
        },
        DispatchStateModel::AwaitingCreate { markup, printer, path } => match file_failure(
            "Failed to create temp file: "@,
            outcome,
        ) {
            Some(error) => fail(error),
            None => (
                DispatchStateModel::AwaitingWrite { markup, printer, path },
                DispatchActionModel::WriteTempFile { contents: markup },
            ),
        },
        DispatchStateModel::AwaitingWrite { markup, printer, path } => match file_failure(
            "Failed to write HTML content: "@,
            outcome,
        ) {
            Some(error) => fail(error),
            None => (
                DispatchStateModel::AwaitingFlush { markup, printer, path },
                DispatchActionModel::FlushTempFile,
            ),
        },
        DispatchStateModel::AwaitingFlush { markup, printer, path } => match file_failure(
            "Failed to flush file: "@,
            outcome,
        ) {
            Some(error) => fail(error),
            None => probe(markup, printer, path, 0),
        },
        DispatchStateModel::AwaitingProbe { markup, printer, path, candidate } => match outcome {
            OutcomeModel::Completed { stdout, stderr } => if candidate
                < engine_candidates().len() {
                (
                    DispatchStateModel::AwaitingEngine { markup, printer },
                    DispatchActionModel::RunEngine {
                        command: engine_line(
                            engine_candidates()[candidate as int],
                            file_url(path),
                        ),
                        timeout_ms: engine_timeout_ms(),
                    },
                )
            } else {
                fall_back(markup, printer, PrintErrorModel::EngineUnavailable)
            },
            _ => probe(markup, printer, path, candidate + 1),
        },
        DispatchStateModel::AwaitingEngine { markup, printer } => match outcome {
            OutcomeModel::Completed { stdout, stderr } => finish(
                PrintResultModel::Success {
                    message: "Print job sent to "@ + printer,
                    printer_name: printer,
                },
            ),
            OutcomeModel::Failed { detail } => fall_back(
                markup,
                printer,
                PrintErrorModel::EngineUnavailable,
            ),
            OutcomeModel::TimedOut => fall_back(markup, printer, PrintErrorModel::EngineTimeout),
        },
        DispatchStateModel::AwaitingSpooler { printer, engine_error } => finish(
            spool_result(outcome, printer, seq![engine_error]),
        ),
        DispatchStateModel::Finished => (
            DispatchStateModel::Finished,
            DispatchActionModel::Nothing,
        ),
    }
}

/// The path of the temporary file in the given directory.
pub fn temp_file_path(temp_dir: &str) -> (path: String)
    ensures
        path@ == temp_path(temp_dir@),
{
    let dir = chars_of(temp_dir);
    let mut out: Vec<char> = Vec::new();
    push_all(&mut out, &dir);
    if dir.len() > 0 && dir[dir.len() - 1] != '\\' && dir[dir.len() - 1] != '/' {
        out.push('\\');
        proof {
            reveal_strlit("\\");
            assert("\\"@ == seq!['\\']);
        }
    }
    push_all(&mut out, &chars_of("medbill_receipt.html"));
    string_of(&out)
}

/// The URL of a local file.
pub fn url_of(path: &str) -> (url: String)
    ensures
        url@ == file_url(path@),
{
    let mut table: Vec<ExtractionRule> = Vec::new();
    table.push(ExtractionRule::new("\\", "/"));
    assert(models(table@) == slash_rules());
    let mut out = chars_of("file:///");
    push_all(&mut out, &rewrite(&chars_of(path), &table, false));
    string_of(&out)
}

/// The place with the given index where the render engine is looked for.
pub fn engine_candidate(index: usize) -> (path: Option<String>)
    ensures
        match path {
            Some(path) => 0 <= index < engine_candidates().len() && path@
                == engine_candidates()[index as int],
            None => index >= engine_candidates().len(),
        },
{
    if index == 0 {
        Some(owned("C:\\Program Files (x86)\\Microsoft\\Edge\\Application\\msedge.exe"))
    } else if index == 1 {
        Some(owned("C:\\Program Files\\Microsoft\\Edge\\Application\\msedge.exe"))
    } else {
        None
    }
}

/// The command that makes the engine print the file at `url`.
pub fn engine_command(program: String, url: String) -> (line: CommandLine)
    ensures
        line@ == engine_line(program@, url@),
{
    let mut arguments: Vec<String> = Vec::new();
    arguments.push(owned("--headless"));
    arguments.push(owned("--disable-gpu"));
    arguments.push(owned("--run-all-compositor-stages-before-draw"));
    arguments.push(owned("--print-to-pdf-no-header"));
    arguments.push(owned("--kiosk-printing"));
    arguments.push(url);
    assert(texts(arguments@) == seq![
        "--headless"@,
        "--disable-gpu"@,
        "--run-all-compositor-stages-before-draw"@,
        "--print-to-pdf-no-header"@,
        "--kiosk-printing"@,
        url@,
    ]);
    CommandLine { program, arguments }
}

fn finish_with(result: PrintResult) -> (next: (DispatchState, DispatchAction))
    ensures
        (next.0@, next.1@) == finish(result@),
{
    (DispatchState::Finished, DispatchAction::Finish { result })
}

fn fail_with(reason: PrintError) -> (next: (DispatchState, DispatchAction))
    ensures
        (next.0@, next.1@) == fail(reason@),
{
    finish_with(PrintResult::failed(reason))
}

fn file_error(prefix: &str, outcome: &Outcome) -> (r: Option<PrintError>)
    ensures
        match r {
            Some(error) => file_failure(prefix@, outcome@) == Some(error@),
            None => file_failure(prefix@, outcome@).is_none(),
        },
{
    match outcome {
        Outcome::Completed { .. } => None,
        Outcome::Failed { detail } => Some(
            PrintError::TempFileIO { detail: prefixed(prefix, detail.as_str()) },
        ),
        Outcome::TimedOut => Some(
            PrintError::TempFileIO {
                detail: prefixed(prefix, "the file system did not answer in time"),
            },
        ),
    }
}

fn go_on_with_printer(markup: String, temp_dir: String, printer: String, is_default: bool) -> (next:
    (DispatchState, DispatchAction))
    ensures
        (next.0@, next.1@) == with_printer(markup@, temp_dir@, printer@, is_default),
{
    if is_virtual(printer.as_str()) {
        fail_with(PrintError::UnsuitablePrinter { name: printer, is_default })
    } else {
        let path = temp_file_path(temp_dir.as_str());
        let target = path.clone();
        (
            DispatchState::AwaitingCreate { markup, printer, path },
            DispatchAction::CreateTempFile { path: target },
        )
    }
}

fn fall_back_to_spooler(markup: String, printer: String, engine_error: PrintError) -> (next: (
    DispatchState,
    DispatchAction,
))
    ensures
        (next.0@, next.1@) == fall_back(markup@, printer@, engine_error@),
{
    let plain = extract(markup.as_str());
    let target = Some(printer.clone());
    let line = command(plain.as_str(), &target);
    (
        DispatchState::AwaitingSpooler { printer, engine_error },
        DispatchAction::RunSpooler { command: line },
    )
}

fn probe_engine(markup: String, printer: String, path: String, candidate: usize) -> (next: (
    DispatchState,
    DispatchAction,
))
    ensures
        (next.0@, next.1@) == probe(markup@, printer@, path@, candidate as nat),
{
    match engine_candidate(candidate) {
        Some(place) => (
            DispatchState::AwaitingProbe { markup, printer, path, candidate },
            DispatchAction::ProbeEngine { path: place },
        ),
        None => fall_back_to_spooler(markup, printer, PrintError::EngineUnavailable),
    }
}

/// Begins the dispatch of a job. `temp_dir` is the directory for temporary
/// files. Where the job names no printer, or only white space, the default
/// printer is asked for; on a platform other than Windows the job ends at
/// once with `PlatformUnsupported`.
pub fn dispatch(platform: Platform, job: PrintJob, temp_dir: String) -> (next: (
    DispatchState,
    DispatchAction,
))
    ensures
        (next.0@, next.1@) == start_model(platform, job@, temp_dir@),
{
    let PrintJob { payload, target, .. } = job;
    if platform != Platform::Windows {
        return fail_with(PrintError::PlatformUnsupported);
    }
    match target {
        Some(name) => {
            let given = trim(&chars_of(name.as_str()));
            if given.len() > 0 {
                return go_on_with_printer(payload, temp_dir, string_of(&given), false);
            }
        },
        None => {},
    }
    (
        DispatchState::AwaitingPrinter { markup: payload, temp_dir },
        DispatchAction::QueryDefaultPrinter { command: default_printer_query() },
    )
}

/// Takes a dispatch one step further: `outcome` is what the caller saw when
/// it performed the action it was handed last.
pub fn step(state: DispatchState, outcome: &Outcome) -> (next: (DispatchState, DispatchAction))
    ensures
        (next.0@, next.1@) == step_model(state@, outcome@),
{
    match state {
        DispatchState::AwaitingPrinter { markup, temp_dir } => match default_printer(outcome) {
            Ok(name) => go_on_with_printer(markup, temp_dir, name, true),
            Err(_) => fail_with(PrintError::NoDefaultPrinter),
        },
        DispatchState::AwaitingCreate { markup, printer, path } => match file_error(
            "Failed to create temp file: ",
            outcome,
        ) {
            Some(error) => fail_with(error),
            None => {
                let contents = markup.clone();
                (
                    DispatchState::AwaitingWrite { markup, printer, path },
                    DispatchAction::WriteTempFile { contents },
                )
            },
        },
        DispatchState::AwaitingWrite { markup, printer, path } => match file_error(
            "Failed to write HTML content: ",
            outcome,
        ) {
            Some(error) => fail_with(error),
            None => (
                DispatchState::AwaitingFlush { markup, printer, path },
                DispatchAction::FlushTempFile,
            ),
        },
        DispatchState::AwaitingFlush { markup, printer, path } => match file_error(
            "Failed to flush file: ",
            outcome,
        ) {
            Some(error) => fail_with(error),
            None => probe_engine(markup, printer, path, 0),
        },
        DispatchState::AwaitingProbe { markup, printer, path, candidate } => match outcome {
            Outcome::Completed { .. } => match engine_candidate(candidate) {
                Some(program) => {
                    let line = engine_command(program, url_of(path.as_str()));
                    (
                        DispatchState::AwaitingEngine { markup, printer },
                        DispatchAction::RunEngine { command: line, timeout_ms: 10000 },
                    )
                },
                None => fall_back_to_spooler(markup, printer, PrintError::EngineUnavailable),
            },
            _ => {
                if candidate < usize::MAX {
                    probe_engine(markup, printer, path, candidate + 1)
                } else {
                    fall_back_to_spooler(markup, printer, PrintError::EngineUnavailable)
                }
            },
        },
        DispatchState::AwaitingEngine { markup, printer } => match outcome {
            Outcome::Completed { .. } => {
                let mut message = owned("Print job sent to ");
                message.append(printer.as_str());
                finish_with(PrintResult::Success { message, printer_name: printer })
            },
            Outcome::Failed { .. } => fall_back_to_spooler(
                markup,
                printer,
                PrintError::EngineUnavailable,
            ),
            Outcome::TimedOut => fall_back_to_spooler(markup, printer, PrintError::EngineTimeout),
        },
        DispatchState::AwaitingSpooler { printer, engine_error } => {
            let mut earlier: Vec<PrintError> = Vec::new();
            earlier.push(engine_error);
            assert(crate::model::error_models(earlier@) == seq![engine_error@]);
            finish_with(result(outcome, printer, earlier))
        },
        DispatchState::Finished => (DispatchState::Finished, DispatchAction::Nothing),
    }
}

} // verus!
