//! The medicines catalog: the one-time copy of the bundled medicines into
//! the live store, and the count of the medicines on offer.
//!
//! The store belongs to the caller. The import is a state machine like the
//! dispatcher's: it hands out one action at a time and takes a `StoreReply`
//! for it. The copy is made once only: a store that holds any medicine is
//! left as it is.

use crate::model::owned;
use vstd::prelude::*;
use vstd::string::StringExecFns;

verus! {

/// What the caller saw when it did a piece of work on the store.
#[derive(Clone, Debug, PartialEq, Eq)]
pub enum StoreReply {
    /// The work was done; `rows` is the number that a statement gave or changed.
    Done { rows: u64 },
    /// The work could not be done.
    Failed { detail: String },
}

/// The view of `StoreReply`: the same value with every string as its characters.
pub enum StoreReplyModel {
    Done { rows: u64 },
    Failed { detail: Seq<char> },
}

impl View for StoreReply {
    type V = StoreReplyModel;

    open spec fn view(&self) -> StoreReplyModel {
        match self {
            StoreReply::Done { rows } => StoreReplyModel::Done { rows: *rows },
            StoreReply::Failed { detail } => StoreReplyModel::Failed { detail: detail@ },
        }
    }
}

/// Where an import stands.
#[derive(Clone, Copy, Debug, PartialEq, Eq)]
pub enum ImportState {
    Locating,
    Opening,
    Counting,
    Attaching,
    Copying,
    Detaching { imported: u64 },
    Finished,
}

/// What the caller has to do next for an import.
#[derive(Debug, PartialEq, Eq)]
pub enum ImportAction {
    /// Report `Done` if the bundled store exists, else `Failed` with its path.
    LocateBundle { resource: String },
    /// Open the live store.
    OpenStore { file_name: String },
    /// Run the query and report the number it gives.
    Count { sql: String },
    /// Run the statement, with the path of the bundled store as its one
    /// parameter where `with_bundle_path` is set, and report the rows it changed.
    Execute { sql: String, with_bundle_path: bool },
    /// Return the answer to whoever asked for the import.
    Finish { answer: Result<u32, String> },
    /// The import is over and the reply belongs to nothing.
    Nothing,
}

/// The view of `ImportAction`: the same value with every string as its characters.
pub enum ImportActionModel {
    LocateBundle { resource: Seq<char> },
    OpenStore { file_name: Seq<char> },
    Count { sql: Seq<char> },
    Execute { sql: Seq<char>, with_bundle_path: bool },
    Finish { answer: Result<u32, Seq<char>> },
    Nothing,
}

/// The view of an answer that is a count or a reason.
pub open spec fn answer_model(answer: Result<u32, String>) -> Result<u32, Seq<char>> {
    match answer {
        Ok(count) => Ok(count),
        Err(text) => Err(text@),
    }
}

impl View for ImportAction {
    type V = ImportActionModel;

    open spec fn view(&self) -> ImportActionModel {
        match self {
            ImportAction::LocateBundle { resource } => ImportActionModel::LocateBundle {
                resource: resource@,
            },
            ImportAction::OpenStore { file_name } => ImportActionModel::OpenStore {
                file_name: file_name@,
            },
            ImportAction::Count { sql } => ImportActionModel::Count { sql: sql@ },
            ImportAction::Execute { sql, with_bundle_path } => ImportActionModel::Execute {
                sql: sql@,
                with_bundle_path: *with_bundle_path,
            },
            ImportAction::Finish { answer } => ImportActionModel::Finish {
                answer: answer_model(*answer),
            },
            ImportAction::Nothing => ImportActionModel::Nothing,
        }
    }
}

/// How far a lookup of the medicines count got.
#[derive(Clone, Debug, PartialEq, Eq)]
pub enum CountLookup {
    /// The live store does not exist yet.
    StoreMissing,
    /// The live store could not be opened.
    OpenFailed { detail: String },
    /// The store was opened and asked; `rows` is its answer, if it gave one.
    Counted { rows: Option<u64> },
}

/// The view of `CountLookup`: the same value with every string as its characters.
pub enum CountLookupModel {
    StoreMissing,
    OpenFailed { detail: Seq<char> },
    Counted { rows: Option<u64> },
}

impl View for CountLookup {
    type V = CountLookupModel;

    open spec fn view(&self) -> CountLookupModel {
        match self {
            CountLookup::StoreMissing => CountLookupModel::StoreMissing,
            CountLookup::OpenFailed { detail } => CountLookupModel::OpenFailed { detail: detail@ },
            CountLookup::Counted { rows } => CountLookupModel::Counted { rows: *rows },
        }
    }
}

/// Where the bundled store lies among the resources of the program.
pub open spec fn bundle_resource() -> Seq<char> {
    "resources/medicines-bundle.db"@
}

/// The file name of the live store.
pub open spec fn store_file_name() -> Seq<char> {
    "medbill.db"@
}

/// The query that counts the medicines that the live store holds.
pub open spec fn count_all_sql() -> Seq<char> {
    "SELECT COUNT(*) FROM medicines"@
}

/// The query that counts the medicines on offer.
pub open spec fn count_active_sql() -> Seq<char> {
    "SELECT COUNT(*) FROM medicines WHERE is_active = 1"@
}

/// The statement that attaches the bundled store to the live one.
pub open spec fn attach_sql() -> Seq<char> {
    "ATTACH DATABASE ?1 AS bundle"@
}

/// The statement that copies the bundled medicines into the live store.
pub open spec fn copy_sql() -> Seq<char> {
    "INSERT INTO medicines (name, generic_name, manufacturer, hsn_code, category, drug_type, pack_size, unit, reorder_level, is_active) SELECT name, generic_name, manufacturer, hsn_code, category, drug_type, pack_size, unit, reorder_level, is_active FROM bundle.medicines"@
}

/// The statement that lets go of the bundled store.
pub open spec fn detach_sql() -> Seq<char> {
    "DETACH DATABASE bundle"@
}

/// A count as the store's answer is read: a number that does not fit the
/// answer's type, like an answer that never came, counts as zero.
pub open spec fn count_of(rows: Option<u64>) -> u32 {
    match rows {
        Some(rows) => if rows <= u32::MAX {
            rows as u32
        } else {
            0
        },
        None => 0,
    }
}

/// The number of rows that a statement changed, cut to 32 bits.
pub open spec fn low_bits(rows: u64) -> u32 {
    (rows % 0x1_0000_0000) as u32
}

/// The import ends with the given answer.
pub open spec fn import_finish(answer: Result<u32, Seq<char>>) -> (ImportState, ImportActionModel) {
    (ImportState::Finished, ImportActionModel::Finish { answer })
}

/// The first step of an import: the bundled store is looked for.
pub open spec fn import_start() -> (ImportState, ImportActionModel) {
    (ImportState::Locating, ImportActionModel::LocateBundle { resource: bundle_resource() })
}

/// What follows the count of the medicines that the live store holds: with
/// any medicine in it the import ends, with that count as its answer; an
/// empty store has the bundled one attached.
pub open spec fn after_count(count: u32) -> (ImportState, ImportActionModel) {
    if count > 0 {
        import_finish(Ok(count))
    } else {
        (
            ImportState::Attaching,
            ImportActionModel::Execute { sql: attach_sql(), with_bundle_path: true },
        )
    }
}

/// Every later step of an import.
pub open spec fn import_step_model(state: ImportState, reply: StoreReplyModel) -> (
    ImportState,
    ImportActionModel,
) {
    match state {
        ImportState::Locating => match reply {
            StoreReplyModel::Done { rows } => (
                ImportState::Opening,
                ImportActionModel::OpenStore { file_name: store_file_name() },
            ),
            StoreReplyModel::Failed { detail } => import_finish(
                Err("Bundled medicines database not found at "@ + detail),
            ),
        },
        ImportState::Opening => match reply {
            StoreReplyModel::Done { rows } => (
                ImportState::Counting,
                ImportActionModel::Count { sql: count_all_sql() },
            ),
            StoreReplyModel::Failed { detail } => import_finish(
                Err("Failed to open main database: "@ + detail),
            ),
        },
        ImportState::Counting => match reply {
            StoreReplyModel::Done { rows } => after_count(count_of(Some(rows))),
            StoreReplyModel::Failed { detail } => after_count(0),
        },
        ImportState::Attaching => match reply {
            StoreReplyModel::Done { rows } => (
                ImportState::Copying,
                ImportActionModel::Execute { sql: copy_sql(), with_bundle_path: false },
            ),
            StoreReplyModel::Failed { detail } => import_finish(
                Err("Failed to attach bundle database: "@ + detail),
            ),
        },
        ImportState::Copying => match reply {
            StoreReplyModel::Done { rows } => (
                ImportState::Detaching { imported: rows },
                ImportActionModel::Execute { sql: detach_sql(), with_bundle_path: false },
            ),
            StoreReplyModel::Failed { detail } => import_finish(
                Err("Failed to import medicines: "@ + detail),
            ),
        },
        ImportState::Detaching { imported } => match reply {
            StoreReplyModel::Done { rows } => import_finish(Ok(low_bits(imported))),
            StoreReplyModel::Failed { detail } => import_finish(
                Err("Failed to detach bundle: "@ + detail),
            ),
        },
        ImportState::Finished => (ImportState::Finished, ImportActionModel::Nothing),
    }
}

/// The answer to the question how many medicines are on offer.
pub open spec fn medicines_count(lookup: CountLookupModel) -> Result<u32, Seq<char>> {
    match lookup {
        CountLookupModel::StoreMissing => Ok(0),
        CountLookupModel::OpenFailed { detail } => Err("Failed to open database: "@ + detail),
        CountLookupModel::Counted { rows } => Ok(count_of(rows)),
    }
}

/// Whether the action makes a change to the live store.
pub open spec fn changes_store(action: ImportActionModel) -> bool {
    action matches ImportActionModel::Execute { sql, with_bundle_path } && sql == copy_sql()
}

/// A store that already holds medicines is never written to: the import
/// ends with the count as its answer.
pub proof fn lemma_filled_store_is_left_alone(rows: u64)
    requires
        0 < rows <= u32::MAX,
    ensures
        import_step_model(ImportState::Counting, StoreReplyModel::Done { rows }) == import_finish(
            Ok(rows as u32),
        ),
{
}

/// The copy is begun from one state only: after the bundled store was attached
/// to a live store that was found empty.
pub proof fn lemma_copy_follows_attach_only(state: ImportState, reply: StoreReplyModel)
    requires
        changes_store(import_step_model(state, reply).1),
    ensures
        state == ImportState::Attaching,
        reply is Done,
{
    reveal_strlit("ATTACH DATABASE ?1 AS bundle");
    reveal_strlit("DETACH DATABASE bundle");
    reveal_strlit(
        "INSERT INTO medicines (name, generic_name, manufacturer, hsn_code, category, drug_type, pack_size, unit, reorder_level, is_active) SELECT name, generic_name, manufacturer, hsn_code, category, drug_type, pack_size, unit, reorder_level, is_active FROM bundle.medicines",
    );
    if state == ImportState::Counting {
        assert(attach_sql().len() != copy_sql().len());
    }
    if state is Copying {
        assert(detach_sql().len() != copy_sql().len());
    }
}

fn prefixed(prefix: &str, detail: &String) -> (text: String)
    ensures
        text@ == prefix@ + detail@,
{
    let mut text = owned(prefix);
    text.append(detail.as_str());
    text
}

fn finish_import(answer: Result<u32, String>) -> (next: (ImportState, ImportAction))
    ensures
        (next.0, next.1@) == import_finish(answer_model(answer)),
{
    (ImportState::Finished, ImportAction::Finish { answer })
}

fn go_on_after_count(count: u32) -> (next: (ImportState, ImportAction))
    ensures
        (next.0, next.1@) == after_count(count),
{
    if count > 0 {
        finish_import(Ok(count))
    } else {
        (
            ImportState::Attaching,
            ImportAction::Execute {
                sql: owned("ATTACH DATABASE ?1 AS bundle"),
                with_bundle_path: true,
            },
        )
    }
}

/// A count as the store's answer is read.
pub fn read_count(rows: Option<u64>) -> (count: u32)
    ensures
        count == count_of(rows),
{
    match rows {
        Some(rows) => if rows <= 0xffff_ffff {
            rows as u32
        } else {
            0
        },
        None => 0,
    }
}

/// The file name of the live store.
pub fn store_file() -> (name: String)
    ensures
        name@ == store_file_name(),
{
    owned("medbill.db")
}

/// The query that counts the medicines on offer.
pub fn medicines_count_query() -> (sql: String)
    ensures
        sql@ == count_active_sql(),
{
    owned("SELECT COUNT(*) FROM medicines WHERE is_active = 1")
}

/// Begins the import of the bundled medicines into the live store.
pub fn import_bundled_medicines() -> (next: (ImportState, ImportAction))
    ensures
        (next.0, next.1@) == import_start(),
{
    (
        ImportState::Locating,
        ImportAction::LocateBundle { resource: owned("resources/medicines-bundle.db") },
    )
}

/// Takes an import one step further: `reply` is what the caller saw when it
/// performed the action it was handed last.
pub fn import_step(state: ImportState, reply: &StoreReply) -> (next: (ImportState, ImportAction))
    ensures
        (next.0, next.1@) == import_step_model(state, reply@),
{
    match state {
        ImportState::Locating => match reply {
            StoreReply::Done { .. } => (
                ImportState::Opening,
                ImportAction::OpenStore { file_name: store_file() },
            ),
            StoreReply::Failed { detail } => finish_import(
                Err(prefixed("Bundled medicines database not found at ", detail)),
            ),
        },
        ImportState::Opening => match reply {
            StoreReply::Done { .. } => (
                ImportState::Counting,
                ImportAction::Count { sql: owned("SELECT COUNT(*) FROM medicines") },
            ),
            StoreReply::Failed { detail } => finish_import(
                Err(prefixed("Failed to open main database: ", detail)),
            ),
        },
        ImportState::Counting => match reply {
            StoreReply::Done { rows } => go_on_after_count(read_count(Some(*rows))),
            StoreReply::Failed { .. } => go_on_after_count(0),
        },
        ImportState::Attaching => match reply {
            StoreReply::Done { .. } => (
                ImportState::Copying,
                ImportAction::Execute {
                    sql: owned(
                        "INSERT INTO medicines (name, generic_name, manufacturer, hsn_code, category, drug_type, pack_size, unit, reorder_level, is_active) SELECT name, generic_name, manufacturer, hsn_code, category, drug_type, pack_size, unit, reorder_level, is_active FROM bundle.medicines",
                    ),
                    with_bundle_path: false,
                },
            ),
            StoreReply::Failed { detail } => finish_import(
                Err(prefixed("Failed to attach bundle database: ", detail)),
            ),
        },
        ImportState::Copying => match reply {
            StoreReply::Done { rows } => (
                ImportState::Detaching { imported: *rows },
                ImportAction::Execute {
                    sql: owned("DETACH DATABASE bundle"),
                    with_bundle_path: false,
                },
            ),
            StoreReply::Failed { detail } => finish_import(
                Err(prefixed("Failed to import medicines: ", detail)),
            ),
        },
        ImportState::Detaching { imported } => match reply {
            StoreReply::Done { .. } => finish_import(Ok((imported % 0x1_0000_0000) as u32)),
            StoreReply::Failed { detail } => finish_import(
                Err(prefixed("Failed to detach bundle: ", detail)),
            ),
        },
        ImportState::Finished => (ImportState::Finished, ImportAction::Nothing),
    }
}

/// How many medicines are on offer, from how far the lookup got. A store
/// that does not exist yet holds none.
pub fn get_medicines_count(lookup: &CountLookup) -> (answer: Result<u32, String>)
    ensures
        answer_model(answer) == medicines_count(lookup@),
{
    match lookup {
        CountLookup::StoreMissing => Ok(0),
        CountLookup::OpenFailed { detail } => Err(prefixed("Failed to open database: ", detail)),
        CountLookup::Counted { rows } => Ok(read_count(*rows)),
    }
}

} // verus!
