use medbill::catalog::{
    get_medicines_count, import_bundled_medicines, import_step, medicines_count_query, read_count,
    CountLookup, ImportAction, ImportState, StoreReply,
};

const COPY: &str = "INSERT INTO medicines (name, generic_name, manufacturer, hsn_code, category, drug_type, pack_size, unit, reorder_level, is_active) SELECT name, generic_name, manufacturer, hsn_code, category, drug_type, pack_size, unit, reorder_level, is_active FROM bundle.medicines";

fn done(rows: u64) -> StoreReply {
    StoreReply::Done { rows }
}

fn failed(detail: &str) -> StoreReply {
    StoreReply::Failed { detail: detail.to_string() }
}

fn run(replies: Vec<StoreReply>) -> Vec<(ImportState, ImportAction)> {
    let mut steps = vec![import_bundled_medicines()];
    for reply in replies.iter() {
        let state = steps[steps.len() - 1].0;
        steps.push(import_step(state, reply));
    }
    steps
}

#[test]
fn import_into_an_empty_store_copies_once() {
    let steps = run(vec![done(0), done(0), done(0), done(0), done(1250), done(0), done(0)]);
    assert_eq!(
        steps[0],
        (
            ImportState::Locating,
            ImportAction::LocateBundle { resource: "resources/medicines-bundle.db".to_string() }
        )
    );
    assert_eq!(
        steps[1],
        (ImportState::Opening, ImportAction::OpenStore { file_name: "medbill.db".to_string() })
    );
    assert_eq!(
        steps[2],
        (
            ImportState::Counting,
            ImportAction::Count { sql: "SELECT COUNT(*) FROM medicines".to_string() }
        )
    );
    assert_eq!(
        steps[3],
        (
            ImportState::Attaching,
            ImportAction::Execute {
                sql: "ATTACH DATABASE ?1 AS bundle".to_string(),
                with_bundle_path: true
            }
        )
    );
    assert_eq!(
        steps[4],
        (
            ImportState::Copying,
            ImportAction::Execute { sql: COPY.to_string(), with_bundle_path: false }
        )
    );
    assert_eq!(
        steps[5],
        (
            ImportState::Detaching { imported: 1250 },
            ImportAction::Execute {
                sql: "DETACH DATABASE bundle".to_string(),
                with_bundle_path: false
            }
        )
    );
    assert_eq!(steps[6], (ImportState::Finished, ImportAction::Finish { answer: Ok(1250) }));
    assert_eq!(steps[7], (ImportState::Finished, ImportAction::Nothing));
}

#[test]
fn a_store_with_medicines_is_left_alone() {
    let steps = run(vec![done(0), done(0), done(42)]);
    assert_eq!(steps[3], (ImportState::Finished, ImportAction::Finish { answer: Ok(42) }));
    assert!(!steps.iter().any(|s| matches!(s.1, ImportAction::Execute { .. })));
}

#[test]
fn a_count_that_cannot_be_read_counts_as_zero() {
    let steps = run(vec![done(0), done(0), failed("no such table")]);
    assert_eq!(steps[3].0, ImportState::Attaching);
    let steps = run(vec![done(0), done(0), done(1 << 40)]);
    assert_eq!(steps[3].0, ImportState::Attaching);
}

#[test]
fn each_failure_of_the_import_has_its_message() {
    let steps = run(vec![failed("\"/opt/app/resources/medicines-bundle.db\"")]);
    assert_eq!(
        steps[1].1,
        ImportAction::Finish {
            answer: Err("Bundled medicines database not found at \"/opt/app/resources/medicines-bundle.db\"".to_string())
        }
    );
    let steps = run(vec![done(0), failed("locked")]);
    assert_eq!(
        steps[2].1,
        ImportAction::Finish { answer: Err("Failed to open main database: locked".to_string()) }
    );
    let steps = run(vec![done(0), done(0), done(0), failed("x")]);
    assert_eq!(
        steps[4].1,
        ImportAction::Finish { answer: Err("Failed to attach bundle database: x".to_string()) }
    );
    let steps = run(vec![done(0), done(0), done(0), done(0), failed("y")]);
    assert_eq!(
        steps[5].1,
        ImportAction::Finish { answer: Err("Failed to import medicines: y".to_string()) }
    );
    let steps = run(vec![done(0), done(0), done(0), done(0), done(7), failed("z")]);
    assert_eq!(
        steps[6].1,
        ImportAction::Finish { answer: Err("Failed to detach bundle: z".to_string()) }
    );
}

#[test]
fn the_number_of_copied_rows_is_cut_to_32_bits() {
    let steps = run(vec![done(0), done(0), done(0), done(0), done((1 << 32) + 5), done(0)]);
    assert_eq!(steps[6].1, ImportAction::Finish { answer: Ok(5) });
}

#[test]
fn counts_are_read_as_32_bit_numbers() {
    assert_eq!(read_count(Some(0)), 0);
    assert_eq!(read_count(Some(4294967295)), 4294967295);
    assert_eq!(read_count(Some(4294967296)), 0);
    assert_eq!(read_count(None), 0);
}

#[test]
fn medicines_count_follows_the_lookup() {
    assert_eq!(get_medicines_count(&CountLookup::StoreMissing), Ok(0));
    assert_eq!(
        get_medicines_count(&CountLookup::OpenFailed { detail: "locked".to_string() }),
        Err("Failed to open database: locked".to_string())
    );
    assert_eq!(get_medicines_count(&CountLookup::Counted { rows: Some(17) }), Ok(17));
    assert_eq!(get_medicines_count(&CountLookup::Counted { rows: None }), Ok(0));
    assert_eq!(
        medicines_count_query(),
        "SELECT COUNT(*) FROM medicines WHERE is_active = 1"
    );
}
