use medbill::dispatch::{
    dispatch, engine_candidate, engine_command, step, temp_file_path, url_of, DispatchAction,
    DispatchState,
};
use medbill::model::{Outcome, Platform, PrintError, PrintJob, PrintResult};

const MARKUP: &str = "<html><body><pre>TOTAL: 100</pre></body></html>";
const PAD: &str = "\n\n\n\n\n\n\u{c}";
const EDGE_X86: &str = "C:\\Program Files (x86)\\Microsoft\\Edge\\Application\\msedge.exe";
const EDGE: &str = "C:\\Program Files\\Microsoft\\Edge\\Application\\msedge.exe";
const TEMP: &str = "C:\\Temp";
const TEMP_FILE: &str = "C:\\Temp\\medbill_receipt.html";

fn job(target: Option<&str>) -> PrintJob {
    PrintJob::new(MARKUP.to_string(), target.map(|t| t.to_string()), 1)
}

fn done() -> Outcome {
    Outcome::Completed { stdout: String::new(), stderr: String::new() }
}

fn said(stdout: &str) -> Outcome {
    Outcome::Completed { stdout: stdout.to_string(), stderr: String::new() }
}

fn failed(detail: &str) -> Outcome {
    Outcome::Failed { detail: detail.to_string() }
}

fn failure(reason: PrintError) -> DispatchAction {
    DispatchAction::Finish { result: PrintResult::Failure { reason, earlier: vec![] } }
}

fn reply(action: &DispatchAction) -> Result<String, String> {
    match action {
        DispatchAction::Finish { result } => result.clone().into_reply(),
        other => panic!("expected the result, got {:?}", other),
    }
}

fn is_file_work(action: &DispatchAction) -> bool {
    matches!(
        action,
        DispatchAction::CreateTempFile { .. }
            | DispatchAction::WriteTempFile { .. }
            | DispatchAction::FlushTempFile
    )
}

fn is_strategy_work(action: &DispatchAction) -> bool {
    is_file_work(action)
        || matches!(
            action,
            DispatchAction::ProbeEngine { .. }
                | DispatchAction::RunEngine { .. }
                | DispatchAction::RunSpooler { .. }
        )
}

fn spooler_arguments(action: &DispatchAction) -> Vec<String> {
    match action {
        DispatchAction::RunSpooler { command } => {
            assert_eq!(command.program, "powershell");
            command.arguments.clone()
        }
        other => panic!("expected the spooler, got {:?}", other),
    }
}

/// Runs a dispatch against the outcomes given and returns every action it asked for.
fn run(platform: Platform, job: PrintJob, outcomes: Vec<Outcome>) -> Vec<DispatchAction> {
    let (mut state, first) = dispatch(platform, job, TEMP.to_string());
    let mut actions = vec![first];
    for outcome in outcomes.iter() {
        let (next, action) = step(state, outcome);
        state = next;
        actions.push(action);
    }
    actions
}

#[test]
fn pdf_target_fails_without_any_strategy() {
    for name in ["Microsoft Print to PDF", "my pdf printer", " PdF ", "Send to OneNote"] {
        let actions = run(Platform::Windows, job(Some(name)), vec![done(), done(), done()]);
        assert_eq!(
            actions[0],
            failure(PrintError::UnsuitablePrinter {
                name: name.trim().to_string(),
                is_default: false
            })
        );
        assert_eq!(
            actions[1..],
            [DispatchAction::Nothing, DispatchAction::Nothing, DispatchAction::Nothing]
        );
        assert!(!actions.iter().any(is_strategy_work));
    }
}

#[test]
fn missing_default_printer_fails_without_writing_a_file() {
    for answer in [said(""), said(" \r\n"), failed("no shell"), Outcome::TimedOut] {
        let actions = run(Platform::Windows, job(None), vec![answer, done(), done()]);
        assert!(matches!(actions[0], DispatchAction::QueryDefaultPrinter { .. }));
        assert_eq!(actions[1], failure(PrintError::NoDefaultPrinter));
        assert_eq!(
            reply(&actions[1]),
            Err("No default printer configured. Please set TVS MSP 250 as default printer in Windows Settings.".to_string())
        );
        assert_eq!(actions[2], DispatchAction::Nothing);
        assert_eq!(actions[3], DispatchAction::Nothing);
        assert!(!actions.iter().any(is_strategy_work));
    }
}

#[test]
fn virtual_default_printer_fails_without_any_strategy() {
    let actions = run(Platform::Windows, job(None), vec![said("My Pdf Printer\r\n"), done()]);
    assert_eq!(
        actions[1],
        failure(PrintError::UnsuitablePrinter {
            name: "My Pdf Printer".to_string(),
            is_default: true
        })
    );
    assert_eq!(
        reply(&actions[1]),
        Err("Default printer is 'My Pdf Printer'. Please set your TVS MSP 250 printer as the default printer in Windows Settings.".to_string())
    );
    assert_eq!(actions[2], DispatchAction::Nothing);
    assert!(!actions.iter().any(is_strategy_work));
}

#[test]
fn end_to_end_raw_spool_after_missing_engine() {
    let (state, action) = dispatch(Platform::Windows, job(None), TEMP.to_string());
    match &action {
        DispatchAction::QueryDefaultPrinter { command } => {
            assert_eq!(command.program, "powershell");
            assert_eq!(
                command.arguments[3],
                "(Get-CimInstance -Class Win32_Printer | Where-Object {$_.Default -eq $true}).Name"
            );
        }
        other => panic!("expected the query, got {:?}", other),
    }
    let (state, action) = step(state, &said("TVS MSP 250\r\n"));
    assert_eq!(action, DispatchAction::CreateTempFile { path: TEMP_FILE.to_string() });
    let (state, action) = step(state, &done());
    assert_eq!(action, DispatchAction::WriteTempFile { contents: MARKUP.to_string() });
    let (state, action) = step(state, &done());
    assert_eq!(action, DispatchAction::FlushTempFile);
    let (state, action) = step(state, &done());
    assert_eq!(action, DispatchAction::ProbeEngine { path: EDGE_X86.to_string() });
    let (state, action) = step(state, &failed("not there"));
    assert_eq!(action, DispatchAction::ProbeEngine { path: EDGE.to_string() });
    let (state, action) = step(state, &failed("not there"));
    let arguments = spooler_arguments(&action);
    assert_eq!(arguments.len(), 8);
    assert_eq!(
        arguments[7],
        format!(
            "$content = '{}{}'\nOut-Printer -PrinterName 'TVS MSP 250' -InputObject $content\n",
            "TOTAL: 100", PAD
        )
    );
    assert_eq!(
        state,
        DispatchState::AwaitingSpooler {
            printer: "TVS MSP 250".to_string(),
            engine_error: PrintError::EngineUnavailable
        }
    );
    let (state, action) = step(state, &done());
    assert_eq!(
        action,
        DispatchAction::Finish {
            result: PrintResult::Success {
                message: "Raw print job sent".to_string(),
                printer_name: "TVS MSP 250".to_string(),
            }
        }
    );
    assert_eq!(reply(&action), Ok("Raw print job sent".to_string()));
    assert_eq!(state, DispatchState::Finished);
}

#[test]
fn engine_success_finishes_the_job() {
    let (state, _) = dispatch(Platform::Windows, job(Some("TVS MSP 250")), TEMP.to_string());
    let (state, _) = step(state, &done());
    let (state, _) = step(state, &done());
    let (state, _) = step(state, &done());
    let (state, action) = step(state, &done());
    assert_eq!(
        action,
        DispatchAction::RunEngine {
            command: engine_command(
                EDGE_X86.to_string(),
                "file:///C:/Temp/medbill_receipt.html".to_string()
            ),
            timeout_ms: 10000,
        }
    );
    assert_eq!(
        state,
        DispatchState::AwaitingEngine {
            markup: MARKUP.to_string(),
            printer: "TVS MSP 250".to_string()
        }
    );
    let (state, action) = step(state, &said("anything"));
    assert_eq!(
        action,
        DispatchAction::Finish {
            result: PrintResult::Success {
                message: "Print job sent to TVS MSP 250".to_string(),
                printer_name: "TVS MSP 250".to_string(),
            }
        }
    );
    assert_eq!(reply(&action), Ok("Print job sent to TVS MSP 250".to_string()));
    assert_eq!(state, DispatchState::Finished);
}

#[test]
fn second_engine_place_is_used_when_the_first_is_empty() {
    let actions = run(
        Platform::Windows,
        job(Some("P")),
        vec![done(), done(), done(), failed("not there"), done()],
    );
    match &actions[5] {
        DispatchAction::RunEngine { command, timeout_ms } => {
            assert_eq!(command.program, EDGE);
            assert_eq!(*timeout_ms, 10000);
        }
        other => panic!("expected the engine, got {:?}", other),
    }
}

#[test]
fn engine_timeout_falls_back_and_is_kept_with_the_failure() {
    let actions = run(
        Platform::Windows,
        job(Some("P")),
        vec![
            done(),
            done(),
            done(),
            done(),
            Outcome::TimedOut,
            Outcome::Completed { stdout: String::new(), stderr: "Access denied".to_string() },
        ],
    );
    assert!(matches!(actions[5], DispatchAction::RunSpooler { .. }));
    assert_eq!(
        actions[6],
        DispatchAction::Finish {
            result: PrintResult::Failure {
                reason: PrintError::SpoolRejected {
                    detail: "Print failed: Access denied".to_string()
                },
                earlier: vec![PrintError::EngineTimeout],
            }
        }
    );
    assert_eq!(reply(&actions[6]), Err("Print failed: Access denied".to_string()));
}

#[test]
fn engine_that_cannot_start_falls_back() {
    let actions = run(
        Platform::Windows,
        job(Some("P")),
        vec![done(), done(), done(), done(), failed("cannot start"), failed("no shell")],
    );
    assert_eq!(
        actions[6],
        DispatchAction::Finish {
            result: PrintResult::Failure {
                reason: PrintError::SpoolRejected {
                    detail: "Failed to execute: no shell".to_string()
                },
                earlier: vec![PrintError::EngineUnavailable],
            }
        }
    );
    assert_eq!(reply(&actions[6]), Err("Failed to execute: no shell".to_string()));
}

#[test]
fn each_failure_of_the_temp_file_ends_the_job_with_its_own_text() {
    let actions = run(Platform::Windows, job(Some("P")), vec![failed("disk full"), done()]);
    assert_eq!(
        actions[1],
        failure(PrintError::TempFileIO {
            detail: "Failed to create temp file: disk full".to_string()
        })
    );
    assert_eq!(reply(&actions[1]), Err("Failed to create temp file: disk full".to_string()));
    assert_eq!(actions[2], DispatchAction::Nothing);

    let actions = run(Platform::Windows, job(Some("P")), vec![done(), failed("disk full")]);
    assert_eq!(reply(&actions[2]), Err("Failed to write HTML content: disk full".to_string()));

    let actions =
        run(Platform::Windows, job(Some("P")), vec![done(), done(), failed("disk full")]);
    assert_eq!(reply(&actions[3]), Err("Failed to flush file: disk full".to_string()));

    let actions = run(Platform::Windows, job(Some("P")), vec![Outcome::TimedOut]);
    assert_eq!(
        actions[1],
        failure(PrintError::TempFileIO {
            detail: "Failed to create temp file: the file system did not answer in time"
                .to_string()
        })
    );
    assert!(!actions.iter().any(|a| matches!(
        a,
        DispatchAction::ProbeEngine { .. }
            | DispatchAction::RunEngine { .. }
            | DispatchAction::RunSpooler { .. }
    )));
}

#[test]
fn other_platforms_fail_at_once() {
    let actions = run(Platform::Other, job(Some("TVS MSP 250")), vec![done()]);
    assert_eq!(actions[0], failure(PrintError::PlatformUnsupported));
    assert_eq!(
        reply(&actions[0]),
        Err("Silent printing is only supported on Windows".to_string())
    );
    assert_eq!(actions[1], DispatchAction::Nothing);
    let actions = run(Platform::Other, job(None), vec![]);
    assert_eq!(actions[0], failure(PrintError::PlatformUnsupported));
}

#[test]
fn blank_target_counts_as_no_target() {
    let (_, action) = dispatch(Platform::Windows, job(Some("  ")), TEMP.to_string());
    assert!(matches!(action, DispatchAction::QueryDefaultPrinter { .. }));
}

#[test]
fn explicit_target_is_used_without_asking() {
    let (state, action) = dispatch(Platform::Windows, job(Some(" TVS MSP 250 ")), TEMP.to_string());
    assert_eq!(action, DispatchAction::CreateTempFile { path: TEMP_FILE.to_string() });
    assert_eq!(
        state,
        DispatchState::AwaitingCreate {
            markup: MARKUP.to_string(),
            printer: "TVS MSP 250".to_string(),
            path: TEMP_FILE.to_string(),
        }
    );
}

#[test]
fn a_dispatch_is_over_after_eight_outcomes_at_most() {
    let outcomes = vec![
        said("P"),
        done(),
        done(),
        done(),
        failed("x"),
        done(),
        Outcome::TimedOut,
        done(),
        done(),
    ];
    let actions = run(Platform::Windows, job(None), outcomes);
    assert!(matches!(actions[8], DispatchAction::Finish { .. }));
    assert_eq!(actions[9], DispatchAction::Nothing);
    assert_eq!(actions.iter().filter(|a| matches!(a, DispatchAction::Finish { .. })).count(), 1);
}

#[test]
fn temp_file_path_joins_with_one_separator() {
    assert_eq!(temp_file_path("C:\\Temp"), "C:\\Temp\\medbill_receipt.html");
    assert_eq!(temp_file_path("C:\\Temp\\"), "C:\\Temp\\medbill_receipt.html");
    assert_eq!(temp_file_path("C:/Temp/"), "C:/Temp/medbill_receipt.html");
    assert_eq!(temp_file_path(""), "medbill_receipt.html");
}

#[test]
fn url_of_turns_backslashes() {
    assert_eq!(url_of("C:\\Temp\\a b.html"), "file:///C:/Temp/a b.html");
    assert_eq!(url_of("/tmp/x.html"), "file:////tmp/x.html");
}

#[test]
fn engine_is_looked_for_in_two_places() {
    assert_eq!(engine_candidate(0), Some(EDGE_X86.to_string()));
    assert_eq!(engine_candidate(1), Some(EDGE.to_string()));
    assert_eq!(engine_candidate(2), None);
}

#[test]
fn engine_command_prints_without_a_dialog() {
    let line = engine_command("edge".to_string(), "file:///x".to_string());
    assert_eq!(line.program, "edge");
    assert_eq!(
        line.arguments,
        vec![
            "--headless".to_string(),
            "--disable-gpu".to_string(),
            "--run-all-compositor-stages-before-draw".to_string(),
            "--print-to-pdf-no-header".to_string(),
            "--kiosk-printing".to_string(),
            "file:///x".to_string(),
        ]
    );
}
