//! The values that pass between the printing subsystem and its caller.
//!
//! Each type has a view in which every string is a sequence of characters;
//! the contracts of the library are stated over these views.

use vstd::prelude::*;
use vstd::string::StringExecFns;

verus! {

/// The operating system that the program runs on. Printing is supported on
/// Windows only; everywhere else every operation fails without an OS call.
#[derive(Clone, Copy, Debug, PartialEq, Eq, Structural)]
pub enum Platform {
    Windows,
    Other,
}

/// Why a print request failed.
#[derive(Clone, Debug, PartialEq, Eq)]
pub enum PrintError {
    /// No printer is marked as default, or the default could not be asked for.
    NoDefaultPrinter,
    /// The printer is a virtual one that writes files or notes, not paper.
    /// `is_default` says whether it is the default printer of the system or
    /// the printer that the job itself named.
    UnsuitablePrinter { name: String, is_default: bool },
    /// The temporary file for the render engine could not be created, written
    /// or flushed; `detail` is the sentence that says which, and why.
    TempFileIO { detail: String },
    /// The render engine is not installed or could not be started.
    EngineUnavailable,
    /// The render engine did not finish in time.
    EngineTimeout,
    /// The spooler did not take the text, or could not be started; `detail`
    /// is the sentence that says which, and why.
    SpoolRejected { detail: String },
    /// The query for the installed printers itself failed; `detail` is the
    /// sentence that says why.
    OSQueryFailed { detail: String },
    /// The platform has no printing support.
    PlatformUnsupported,
}

/// The view of `PrintError`: the same value with every string as its characters.
pub enum PrintErrorModel {
    NoDefaultPrinter,
    UnsuitablePrinter { name: Seq<char>, is_default: bool },
    TempFileIO { detail: Seq<char> },
    EngineUnavailable,
    EngineTimeout,
    SpoolRejected { detail: Seq<char> },
    OSQueryFailed { detail: Seq<char> },
    PlatformUnsupported,
}

impl View for PrintError {
    type V = PrintErrorModel;

    open spec fn view(&self) -> PrintErrorModel {
        match self {
            PrintError::NoDefaultPrinter => PrintErrorModel::NoDefaultPrinter,
            PrintError::UnsuitablePrinter { name, is_default } => {
                PrintErrorModel::UnsuitablePrinter { name: name@, is_default: *is_default }
            },
            PrintError::TempFileIO { detail } => PrintErrorModel::TempFileIO { detail: detail@ },
            PrintError::EngineUnavailable => PrintErrorModel::EngineUnavailable,
            PrintError::EngineTimeout => PrintErrorModel::EngineTimeout,
            PrintError::SpoolRejected { detail } => PrintErrorModel::SpoolRejected {
                detail: detail@,
            },
            PrintError::OSQueryFailed { detail } => PrintErrorModel::OSQueryFailed {
                detail: detail@,
            },
            PrintError::PlatformUnsupported => PrintErrorModel::PlatformUnsupported,
        }
    }
}

/// The views of a list of errors, in its order.
pub open spec fn error_models(errors: Seq<PrintError>) -> Seq<PrintErrorModel> {
    errors.map_values(|e: PrintError| e@)
}

/// How a print request ended. A failure names the error of the strategy that
/// was tried last and, under `earlier`, the errors of those tried before it,
/// in the order in which they came.
#[derive(Clone, Debug, PartialEq, Eq)]
pub enum PrintResult {
    Success { message: String, printer_name: String },
    Failure { reason: PrintError, earlier: Vec<PrintError> },
}

/// The view of `PrintResult`: the same value with every string as its characters.
pub enum PrintResultModel {
    Success { message: Seq<char>, printer_name: Seq<char> },
    Failure { reason: PrintErrorModel, earlier: Seq<PrintErrorModel> },
}

impl View for PrintResult {
    type V = PrintResultModel;

    open spec fn view(&self) -> PrintResultModel {
        match self {
            PrintResult::Success { message, printer_name } => PrintResultModel::Success {
                message: message@,
                printer_name: printer_name@,
            },
            PrintResult::Failure { reason, earlier } => PrintResultModel::Failure {
                reason: reason@,
                earlier: error_models(earlier@),
            },
        }
    }
}

/// One request to print a bill. It lives for one dispatch and is never stored.
#[derive(Clone, Debug, PartialEq, Eq)]
pub struct PrintJob {
    /// The bill, as finished markup.
    pub payload: String,
    /// The printer to use; the default printer of the system where none is given.
    pub target: Option<String>,
    /// When the request was made, in milliseconds since the Unix epoch.
    pub created_at: u64,
}

/// The view of `PrintJob`: the same value with every string as its characters.
pub struct PrintJobModel {
    pub payload: Seq<char>,
    pub target: Option<Seq<char>>,
    pub created_at: u64,
}

/// The view of a string that may be absent.
pub open spec fn text_of(s: Option<String>) -> Option<Seq<char>> {
    match s {
        Some(s) => Some(s@),
        None => None,
    }
}

impl View for PrintJob {
    type V = PrintJobModel;

    open spec fn view(&self) -> PrintJobModel {
        PrintJobModel {
            payload: self.payload@,
            target: text_of(self.target),
            created_at: self.created_at,
        }
    }
}

/// One installed printer, as the system reported it at the moment of asking.
#[derive(Clone, Debug, PartialEq, Eq)]
pub struct PrinterDescriptor {
    pub name: String,
    pub is_default: bool,
}

/// The view of `PrinterDescriptor`: the same value with every string as its characters.
pub struct PrinterDescriptorModel {
    pub name: Seq<char>,
    pub is_default: bool,
}

impl View for PrinterDescriptor {
    type V = PrinterDescriptorModel;

    open spec fn view(&self) -> PrinterDescriptorModel {
        PrinterDescriptorModel { name: self.name@, is_default: self.is_default }
    }
}

/// The views of a list of strings, in its order.
pub open spec fn texts(list: Seq<String>) -> Seq<Seq<char>> {
    list.map_values(|s: String| s@)
}

/// A program to run, with its arguments.
#[derive(Clone, Debug, PartialEq, Eq)]
pub struct CommandLine {
    pub program: String,
    pub arguments: Vec<String>,
}

/// The view of `CommandLine`: the same value with every string as its characters.
pub struct CommandLineModel {
    pub program: Seq<char>,
    pub arguments: Seq<Seq<char>>,
}

impl View for CommandLine {
    type V = CommandLineModel;

    open spec fn view(&self) -> CommandLineModel {
        CommandLineModel { program: self.program@, arguments: texts(self.arguments@) }
    }
}

/// What the caller saw when it did a piece of outside work for the library.
#[derive(Clone, Debug, PartialEq, Eq)]
pub enum Outcome {
    /// The work ran to its end; for a command, with what it wrote to its two streams.
    Completed { stdout: String, stderr: String },
    /// The work could not be done or started.
    Failed { detail: String },
    /// The work did not end within the time it was given.
    TimedOut,
}

/// The view of `Outcome`: the same value with every string as its characters.
pub enum OutcomeModel {
    Completed { stdout: Seq<char>, stderr: Seq<char> },
    Failed { detail: Seq<char> },
    TimedOut,
}

impl View for Outcome {
    type V = OutcomeModel;

    open spec fn view(&self) -> OutcomeModel {
        match self {
            Outcome::Completed { stdout, stderr } => OutcomeModel::Completed {
                stdout: stdout@,
                stderr: stderr@,
            },
            Outcome::Failed { detail } => OutcomeModel::Failed { detail: detail@ },
            Outcome::TimedOut => OutcomeModel::TimedOut,
        }
    }
}

/// What a person is told about an error that ended a print job. The three
/// kinds that carry a sentence of their own are told by that sentence.
pub open spec fn message_of(error: PrintErrorModel) -> Seq<char> {
    match error {
        PrintErrorModel::NoDefaultPrinter => "No default printer configured. Please set TVS MSP 250 as default printer in Windows Settings."@,
        PrintErrorModel::UnsuitablePrinter { name, is_default } => if is_default {
            "Default printer is '"@ + name
                + "'. Please set your TVS MSP 250 printer as the default printer in Windows Settings."@
        } else {
            "Printer '"@ + name
                + "' cannot print receipts. Please choose your TVS MSP 250 printer."@
        },
        PrintErrorModel::TempFileIO { detail } => detail,
        PrintErrorModel::EngineUnavailable => "Render engine is not available"@,
        PrintErrorModel::EngineTimeout => "Render engine timed out"@,
        PrintErrorModel::SpoolRejected { detail } => detail,
        PrintErrorModel::OSQueryFailed { detail } => detail,
        PrintErrorModel::PlatformUnsupported => "Silent printing is only supported on Windows"@,
    }
}

/// A result as the two-sided answer of a service call: the message of a
/// success, or the message of the reason of a failure. The errors that came
/// before the reason stay in the result; the answer does not repeat them.
pub open spec fn reply_of(result: PrintResultModel) -> Result<Seq<char>, Seq<char>> {
    match result {
        PrintResultModel::Success { message, printer_name } => Ok(message),
        PrintResultModel::Failure { reason, earlier } => Err(message_of(reason)),
    }
}

/// A copy of a string slice that is owned.
pub fn owned(s: &str) -> (r: String)
    ensures
        r@ == s@,
{
    String::from_str(s)
}

impl PrintError {
    /// What a person is told about the error.
    pub fn message(&self) -> (text: String)
        ensures
            text@ == message_of(self@),
    {
        match self {
            PrintError::NoDefaultPrinter => owned(
                "No default printer configured. Please set TVS MSP 250 as default printer in Windows Settings.",
            ),
            PrintError::UnsuitablePrinter { name, is_default } => {
                if *is_default {
                    let mut text = owned("Default printer is '");
                    text.append(name.as_str());
                    text.append(
                        "'. Please set your TVS MSP 250 printer as the default printer in Windows Settings.",
                    );
                    text
                } else {
                    let mut text = owned("Printer '");
                    text.append(name.as_str());
                    text.append("' cannot print receipts. Please choose your TVS MSP 250 printer.");
                    text
                }
            },
            PrintError::TempFileIO { detail } => detail.clone(),
            PrintError::EngineUnavailable => owned("Render engine is not available"),
            PrintError::EngineTimeout => owned("Render engine timed out"),
            PrintError::SpoolRejected { detail } => detail.clone(),
            PrintError::OSQueryFailed { detail } => detail.clone(),
            PrintError::PlatformUnsupported => owned(
                "Silent printing is only supported on Windows",
            ),
        }
    }
}

impl PrintResult {
    /// A failure with nothing that came before it.
    pub fn failed(reason: PrintError) -> (result: PrintResult)
        ensures
            result@ == (PrintResultModel::Failure { reason: reason@, earlier: Seq::empty() }),
    {
        let earlier: Vec<PrintError> = Vec::new();
        assert(error_models(earlier@) == Seq::<PrintErrorModel>::empty());
        PrintResult::Failure { reason, earlier }
    }

    /// The result as the two-sided answer of a service call.
    pub fn into_reply(self) -> (reply: Result<String, String>)
        ensures
            match reply {
                Ok(text) => reply_of(self@) == Ok::<Seq<char>, Seq<char>>(text@),
                Err(text) => reply_of(self@) == Err::<Seq<char>, Seq<char>>(text@),
            },
    {
        match self {
            PrintResult::Success { message, .. } => Ok(message),
            PrintResult::Failure { reason, .. } => Err(reason.message()),
        }
    }
}

/// `prefix` followed by `detail`.
pub fn prefixed(prefix: &str, detail: &str) -> (text: String)
    ensures
        text@ == prefix@ + detail@,
{
    let mut text = owned(prefix);
    text.append(detail);
    text
}

impl PrintJob {
    /// A job for the given bill.
    pub fn new(payload: String, target: Option<String>, created_at: u64) -> (job: PrintJob)
        ensures
            job@ == (PrintJobModel {
                payload: payload@,
                target: text_of(target),
                created_at,
            }),
    {
        PrintJob { payload, target, created_at }
    }
}

} // verus!
