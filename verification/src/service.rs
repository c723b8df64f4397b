//! The operations that the program offers to its user interface. Each answers
//! with a plain message or a plain reason.
//!
//! The caller runs the command that belongs to an operation and hands over
//! what it saw. On a platform other than Windows it runs nothing: every
//! operation then fails whatever it is handed, and `check_platform` says so
//! beforehand.

use crate::directory::{default_name, default_printer, printer_names};
use crate::dispatch::{dispatch, start_model, DispatchAction, DispatchState};
use crate::model::{
    message_of, owned, prefixed, reply_of, text_of, texts, Outcome, OutcomeModel, Platform,
    PrintError, PrintErrorModel, PrintJob, PrintJobModel,
};
use crate::spool::{result, spool_result};
use vstd::prelude::*;

verus! {

/// What every operation but the silent print answers on a platform without
/// printing support.
pub open spec fn unsupported_text() -> Seq<char> {
    "Only supported on Windows"@
}

/// What the question for the default printer answers where there is none to
/// name: none is configured, or the system could not be asked.
pub open spec fn no_default_printer_text() -> Seq<char> {
    "No default printer configured"@
}

/// What is said of a query that did not end in time.
pub open spec fn query_timeout_detail() -> Seq<char> {
    "the query did not answer in time"@
}

/// The error of a listing query that did not run to its end, if it did not.
pub open spec fn query_failure(outcome: OutcomeModel) -> Option<PrintErrorModel> {
    match outcome {
        OutcomeModel::Completed { stdout, stderr } => None,
        OutcomeModel::Failed { detail } => Some(
            PrintErrorModel::OSQueryFailed { detail: "Failed to list printers: "@ + detail },
        ),
        OutcomeModel::TimedOut => Some(
            PrintErrorModel::OSQueryFailed {
                detail: "Failed to list printers: "@ + query_timeout_detail(),
            },
        ),
    }
}

/// The answer to the question whether a default printer is configured.
pub open spec fn availability(platform: Platform, outcome: OutcomeModel) -> Result<
    bool,
    Seq<char>,
> {
    if platform != Platform::Windows {
        Err(unsupported_text())
    } else {
        Ok(default_name(outcome).is_some())
    }
}

/// The answer to the question which printer is the default: its name, or
/// that there is none, which is also the answer where the system could not
/// be asked.
pub open spec fn default_printer_reply(platform: Platform, outcome: OutcomeModel) -> Result<
    Seq<char>,
    Seq<char>,
> {
    if platform != Platform::Windows {
        Err(unsupported_text())
    } else {
        match default_name(outcome) {
            Some(name) => Ok(name),
            None => Err(no_default_printer_text()),
        }
    }
}

/// The answer to the question which printers are installed.
pub open spec fn printers_reply(platform: Platform, outcome: OutcomeModel) -> Result<
    Seq<Seq<char>>,
    Seq<char>,
> {
    if platform != Platform::Windows {
        Err(unsupported_text())
    } else {
        match query_failure(outcome) {
            Some(error) => Err(message_of(error)),
            None => Ok(printer_names(outcome)),
        }
    }
}

/// The name under which a raw print is reported: the printer that was asked
/// for, or the empty name for the default printer, which was never asked for
/// its name.
pub open spec fn raw_printer_name(printer_name: Option<Seq<char>>) -> Seq<char> {
    match printer_name {
        Some(name) => name,
        None => Seq::empty(),
    }
}

/// The answer to a request to print raw text.
pub open spec fn raw_text_reply(
    platform: Platform,
    outcome: OutcomeModel,
    printer_name: Option<Seq<char>>,
) -> Result<Seq<char>, Seq<char>> {
    if platform != Platform::Windows {
        Err(unsupported_text())
    } else {
        reply_of(spool_result(outcome, raw_printer_name(printer_name), Seq::empty()))
    }
}

/// Says whether anything may be asked of the operating system: on Windows
/// yes, anywhere else the fixed refusal.
pub fn check_platform(platform: Platform) -> (r: Result<(), String>)
    ensures
        r is Ok <==> platform == Platform::Windows,
        r matches Err(text) ==> text@ == unsupported_text(),
{
    if platform != Platform::Windows {
        Err(owned("Only supported on Windows"))
    } else {
        Ok(())
    }
}

fn query_error(outcome: &Outcome) -> (r: Option<PrintError>)
    ensures
        match r {
            Some(error) => query_failure(outcome@) == Some(error@),
            None => query_failure(outcome@).is_none(),
        },
{
    match outcome {
        Outcome::Completed { .. } => None,
        Outcome::Failed { detail } => Some(
            PrintError::OSQueryFailed {
                detail: prefixed("Failed to list printers: ", detail.as_str()),
            },
        ),
        Outcome::TimedOut => Some(
            PrintError::OSQueryFailed {
                detail: prefixed("Failed to list printers: ", "the query did not answer in time"),
            },
        ),
    }
}

/// Begins a silent print of the bill on the default printer. The caller goes
/// on with `dispatch::step` until it is handed the result, and answers with
/// `PrintResult::into_reply`.
pub fn silent_print(platform: Platform, html_content: String, temp_dir: String, created_at: u64)
    -> (next: (DispatchState, DispatchAction))
    ensures
        (next.0@, next.1@) == start_model(
            platform,
            PrintJobModel { payload: html_content@, target: None, created_at },
            temp_dir@,
        ),
{
    dispatch(platform, PrintJob::new(html_content, None, created_at), temp_dir)
}

/// Whether a default printer is configured, from the outcome of the
/// default-printer query. A query that could not be run counts as "no".
pub fn check_printer_available(platform: Platform, outcome: &Outcome) -> (r: Result<bool, String>)
    ensures
        match r {
            Ok(available) => availability(platform, outcome@) == Ok::<bool, Seq<char>>(available),
            Err(text) => availability(platform, outcome@) == Err::<bool, Seq<char>>(text@),
        },
{
    match check_platform(platform) {
        Err(text) => Err(text),
        Ok(_) => Ok(default_printer(outcome).is_ok()),
    }
}

/// The name of the default printer, from the outcome of the default-printer
/// query. Where the query names none, and where it could not be run, the
/// answer is that no default printer is configured.
pub fn get_default_printer(platform: Platform, outcome: &Outcome) -> (r: Result<String, String>)
    ensures
        match r {
            Ok(name) => default_printer_reply(platform, outcome@) == Ok::<Seq<char>, Seq<char>>(
                name@,
            ),
            Err(text) => default_printer_reply(platform, outcome@) == Err::<Seq<char>, Seq<char>>(
                text@,
            ),
        },
{
    match check_platform(platform) {
        Err(text) => Err(text),
        Ok(_) => match default_printer(outcome) {
            Ok(name) => Ok(name),
            Err(_) => Err(owned("No default printer configured")),
        },
    }
}

/// The names of the installed printers, from the outcome of the listing query.
pub fn list_printers(platform: Platform, outcome: &Outcome) -> (r: Result<Vec<String>, String>)
    ensures
        match r {
            Ok(names) => printers_reply(platform, outcome@) == Ok::<Seq<Seq<char>>, Seq<char>>(
                texts(names@),
            ),
            Err(text) => printers_reply(platform, outcome@) == Err::<Seq<Seq<char>>, Seq<char>>(
                text@,
            ),
        },
{
    match check_platform(platform) {
        Err(text) => Err(text),
        Ok(_) => match query_error(outcome) {
            Some(error) => Err(error.message()),
            None => Ok(crate::directory::list_printers(outcome)),
        },
    }
}

/// The answer to a request to print raw text on the named printer, or on the
/// default printer, from the outcome of the spooler command.
pub fn print_raw_text(platform: Platform, outcome: &Outcome, printer_name: Option<String>) -> (r:
    Result<String, String>)
    ensures
        match r {
            Ok(text) => raw_text_reply(platform, outcome@, text_of(printer_name)) == Ok::<
                Seq<char>,
                Seq<char>,
            >(text@),
            Err(text) => raw_text_reply(platform, outcome@, text_of(printer_name)) == Err::<
                Seq<char>,
                Seq<char>,
            >(text@),
        },
{
    match check_platform(platform) {
        Err(text) => Err(text),
        Ok(_) => {
            let name = match printer_name {
                Some(name) => name,
                None => String::new(),
            };
            let earlier: Vec<PrintError> = Vec::new();
            assert(crate::model::error_models(earlier@) == Seq::<PrintErrorModel>::empty());
            result(outcome, name, earlier).into_reply()
        },
    }
}

} // verus!
