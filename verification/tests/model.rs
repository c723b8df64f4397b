use medbill::model::{prefixed, PrintError, PrintJob, PrintResult};

#[test]
fn every_error_has_its_message() {
    assert_eq!(
        PrintError::NoDefaultPrinter.message(),
        "No default printer configured. Please set TVS MSP 250 as default printer in Windows Settings."
    );
    assert_eq!(
        PrintError::UnsuitablePrinter { name: "My Pdf Printer".to_string(), is_default: true }
            .message(),
        "Default printer is 'My Pdf Printer'. Please set your TVS MSP 250 printer as the default printer in Windows Settings."
    );
    assert_eq!(
        PrintError::UnsuitablePrinter { name: "My Pdf Printer".to_string(), is_default: false }
            .message(),
        "Printer 'My Pdf Printer' cannot print receipts. Please choose your TVS MSP 250 printer."
    );
    assert_eq!(
        PrintError::TempFileIO { detail: "Failed to create temp file: disk full".to_string() }
            .message(),
        "Failed to create temp file: disk full"
    );
    assert_eq!(PrintError::EngineUnavailable.message(), "Render engine is not available");
    assert_eq!(PrintError::EngineTimeout.message(), "Render engine timed out");
    assert_eq!(
        PrintError::SpoolRejected { detail: "Print failed: denied".to_string() }.message(),
        "Print failed: denied"
    );
    assert_eq!(
        PrintError::OSQueryFailed { detail: "Failed to list printers: no shell".to_string() }
            .message(),
        "Failed to list printers: no shell"
    );
    assert_eq!(
        PrintError::PlatformUnsupported.message(),
        "Silent printing is only supported on Windows"
    );
}

#[test]
fn a_success_answers_with_its_message() {
    let result = PrintResult::Success {
        message: "Print job sent to TVS MSP 250".to_string(),
        printer_name: "TVS MSP 250".to_string(),
    };
    assert_eq!(result.into_reply(), Ok("Print job sent to TVS MSP 250".to_string()));
}

#[test]
fn a_failure_answers_with_the_message_of_its_reason() {
    let result = PrintResult::Failure {
        reason: PrintError::SpoolRejected { detail: "Failed to execute: no shell".to_string() },
        earlier: vec![PrintError::EngineTimeout, PrintError::EngineUnavailable],
    };
    assert_eq!(result.into_reply(), Err("Failed to execute: no shell".to_string()));
}

#[test]
fn a_plain_failure_has_nothing_before_it() {
    assert_eq!(
        PrintResult::failed(PrintError::NoDefaultPrinter),
        PrintResult::Failure { reason: PrintError::NoDefaultPrinter, earlier: vec![] }
    );
    assert_eq!(
        PrintResult::failed(PrintError::EngineTimeout).into_reply(),
        Err("Render engine timed out".to_string())
    );
}

#[test]
fn a_job_keeps_what_it_was_made_with() {
    let job = PrintJob::new("<p>x</p>".to_string(), Some("P".to_string()), 1700000000000);
    assert_eq!(job.payload, "<p>x</p>");
    assert_eq!(job.target, Some("P".to_string()));
    assert_eq!(job.created_at, 1700000000000);
}

#[test]
fn a_prefix_goes_before_the_detail() {
    assert_eq!(prefixed("Failed to execute: ", "no shell"), "Failed to execute: no shell");
    assert_eq!(prefixed("", ""), "");
}
