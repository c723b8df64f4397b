use medbill::directory::{
    default_printer, default_printer_query, is_virtual, list_printers, list_printers_query,
    snapshot,
};
use medbill::model::{Outcome, PrintError, PrinterDescriptor};

fn completed(stdout: &str) -> Outcome {
    Outcome::Completed { stdout: stdout.to_string(), stderr: String::new() }
}

#[test]
fn default_printer_query_asks_the_shell() {
    let command = default_printer_query();
    assert_eq!(command.program, "powershell");
    assert_eq!(
        command.arguments,
        vec![
            "-NoProfile".to_string(),
            "-NonInteractive".to_string(),
            "-Command".to_string(),
            "(Get-CimInstance -Class Win32_Printer | Where-Object {$_.Default -eq $true}).Name"
                .to_string(),
        ]
    );
}

#[test]
fn list_printers_query_asks_the_shell() {
    let command = list_printers_query();
    assert_eq!(command.program, "powershell");
    assert_eq!(command.arguments.len(), 4);
    assert_eq!(
        command.arguments[3],
        "Get-CimInstance -Class Win32_Printer | Select-Object -ExpandProperty Name"
    );
}

#[test]
fn default_printer_is_the_trimmed_output() {
    assert_eq!(default_printer(&completed("TVS MSP 250\r\n")), Ok("TVS MSP 250".to_string()));
    assert_eq!(default_printer(&completed("  HP LaserJet  ")), Ok("HP LaserJet".to_string()));
}

#[test]
fn no_output_means_no_default_printer() {
    assert_eq!(default_printer(&completed("")), Err(PrintError::NoDefaultPrinter));
    assert_eq!(default_printer(&completed(" \r\n\t")), Err(PrintError::NoDefaultPrinter));
}

#[test]
fn a_query_that_did_not_run_means_no_default_printer() {
    let failed = Outcome::Failed { detail: "program not found".to_string() };
    assert_eq!(default_printer(&failed), Err(PrintError::NoDefaultPrinter));
    assert_eq!(default_printer(&Outcome::TimedOut), Err(PrintError::NoDefaultPrinter));
}

#[test]
fn printers_are_listed_one_per_line() {
    let names = list_printers(&completed("TVS MSP 250\r\n\r\n  Microsoft Print to PDF \r\nOneNote\n"));
    assert_eq!(names, vec!["TVS MSP 250", "Microsoft Print to PDF", "OneNote"]);
}

#[test]
fn an_unreachable_service_lists_no_printers() {
    assert!(list_printers(&Outcome::Failed { detail: "no service".to_string() }).is_empty());
    assert!(list_printers(&Outcome::TimedOut).is_empty());
    assert!(list_printers(&completed("")).is_empty());
    assert!(list_printers(&completed("\n \n")).is_empty());
}

#[test]
fn snapshot_marks_the_default_printer() {
    let printers = snapshot(&completed("A\nB\nC\n"), &completed("B\n"));
    assert_eq!(
        printers,
        vec![
            PrinterDescriptor { name: "A".to_string(), is_default: false },
            PrinterDescriptor { name: "B".to_string(), is_default: true },
            PrinterDescriptor { name: "C".to_string(), is_default: false },
        ]
    );
}

#[test]
fn snapshot_without_a_default_marks_none() {
    let printers = snapshot(&completed("A\nB\n"), &Outcome::TimedOut);
    assert_eq!(printers.len(), 2);
    assert!(printers.iter().all(|p| !p.is_default));
}

#[test]
fn virtual_printers_are_known_by_name() {
    assert!(is_virtual("Microsoft Print to PDF"));
    assert!(is_virtual("my pdf writer"));
    assert!(is_virtual("PdF"));
    assert!(is_virtual("Send To OneNote 2016"));
    assert!(is_virtual("ONENOTE"));
    assert!(!is_virtual("TVS MSP 250"));
    assert!(!is_virtual("pd f"));
    assert!(!is_virtual(""));
}
