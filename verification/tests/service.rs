use medbill::dispatch::DispatchAction;
use medbill::model::{Outcome, Platform, PrintError, PrintResult};
use medbill::service::{
    check_platform, check_printer_available, get_default_printer, list_printers, print_raw_text,
    silent_print,
};

const UNSUPPORTED: &str = "Only supported on Windows";

fn said(stdout: &str) -> Outcome {
    Outcome::Completed { stdout: stdout.to_string(), stderr: String::new() }
}

fn failed(detail: &str) -> Outcome {
    Outcome::Failed { detail: detail.to_string() }
}

#[test]
fn only_windows_is_let_through() {
    assert_eq!(check_platform(Platform::Windows), Ok(()));
    assert_eq!(check_platform(Platform::Other), Err(UNSUPPORTED.to_string()));
}

#[test]
fn every_operation_fails_on_other_platforms() {
    let outcome = said("TVS MSP 250");
    assert_eq!(check_printer_available(Platform::Other, &outcome), Err(UNSUPPORTED.to_string()));
    assert_eq!(get_default_printer(Platform::Other, &outcome), Err(UNSUPPORTED.to_string()));
    assert_eq!(list_printers(Platform::Other, &outcome), Err(UNSUPPORTED.to_string()));
    assert_eq!(print_raw_text(Platform::Other, &outcome, None), Err(UNSUPPORTED.to_string()));
    let (_, action) = silent_print(Platform::Other, "<p>x</p>".to_string(), "/tmp".to_string(), 0);
    assert_eq!(
        action,
        DispatchAction::Finish {
            result: PrintResult::Failure { reason: PrintError::PlatformUnsupported, earlier: vec![] }
        }
    );
    match action {
        DispatchAction::Finish { result } => assert_eq!(
            result.into_reply(),
            Err("Silent printing is only supported on Windows".to_string())
        ),
        other => panic!("expected the result, got {:?}", other),
    }
}

#[test]
fn silent_print_asks_for_the_default_printer() {
    let (_, action) = silent_print(Platform::Windows, "<p>x</p>".to_string(), "C:\\T".to_string(), 0);
    assert!(matches!(action, DispatchAction::QueryDefaultPrinter { .. }));
}

#[test]
fn printer_is_available_when_the_query_names_one() {
    assert_eq!(check_printer_available(Platform::Windows, &said("TVS MSP 250\r\n")), Ok(true));
    assert_eq!(check_printer_available(Platform::Windows, &said("\r\n")), Ok(false));
    assert_eq!(check_printer_available(Platform::Windows, &failed("no shell")), Ok(false));
    assert_eq!(check_printer_available(Platform::Windows, &Outcome::TimedOut), Ok(false));
}

#[test]
fn default_printer_is_named_or_explained() {
    assert_eq!(
        get_default_printer(Platform::Windows, &said(" TVS MSP 250\r\n")),
        Ok("TVS MSP 250".to_string())
    );
    assert_eq!(
        get_default_printer(Platform::Windows, &said("")),
        Err("No default printer configured".to_string())
    );
    assert_eq!(
        get_default_printer(Platform::Windows, &said(" \r\n")),
        Err("No default printer configured".to_string())
    );
    assert_eq!(
        get_default_printer(Platform::Windows, &failed("no shell")),
        Err("No default printer configured".to_string())
    );
    assert_eq!(
        get_default_printer(Platform::Windows, &Outcome::TimedOut),
        Err("No default printer configured".to_string())
    );
}

#[test]
fn printers_are_listed_or_the_failure_explained() {
    assert_eq!(
        list_printers(Platform::Windows, &said("A\r\n B \r\n\r\n")),
        Ok(vec!["A".to_string(), "B".to_string()])
    );
    assert_eq!(list_printers(Platform::Windows, &said("")), Ok(vec![]));
    assert_eq!(
        list_printers(Platform::Windows, &failed("no shell")),
        Err("Failed to list printers: no shell".to_string())
    );
    assert_eq!(
        list_printers(Platform::Windows, &Outcome::TimedOut),
        Err("Failed to list printers: the query did not answer in time".to_string())
    );
}

#[test]
fn raw_text_is_sent_or_the_rejection_explained() {
    assert_eq!(
        print_raw_text(Platform::Windows, &said("whatever"), Some("P".to_string())),
        Ok("Raw print job sent".to_string())
    );
    assert_eq!(
        print_raw_text(Platform::Windows, &said(""), None),
        Ok("Raw print job sent".to_string())
    );
    let rejected = Outcome::Completed { stdout: String::new(), stderr: "denied".to_string() };
    assert_eq!(
        print_raw_text(Platform::Windows, &rejected, None),
        Err("Print failed: denied".to_string())
    );
    assert_eq!(
        print_raw_text(Platform::Windows, &failed("no shell"), None),
        Err("Failed to execute: no shell".to_string())
    );
}
