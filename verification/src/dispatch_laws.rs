//! What holds of every dispatch: it ends, it asks for nothing once it has
//! ended, and it begins no strategy for a job that it refuses.

use crate::directory::{default_name, default_printer_script, is_virtual_printer, query_line};
use crate::dispatch::{
    start_model, step_model, DispatchActionModel, DispatchStateModel,
};
use crate::model::{OutcomeModel, Platform, PrintErrorModel, PrintJobModel, PrintResultModel};
use crate::text::{contains, matches_at, same, skip_spaces, trimmed};
use crate::text_laws::lemma_trim_keeps_match;
use vstd::prelude::*;

verus! {

/// The actions that a dispatch asks for from `state` on while the given
/// outcomes are reported to it, one action for each outcome.
pub open spec fn actions_after(state: DispatchStateModel, outcomes: Seq<OutcomeModel>) -> Seq<
    DispatchActionModel,
>
    decreases outcomes.len(),
{
    if outcomes.len() == 0 {
        Seq::empty()
    } else {
        let next = step_model(state, outcomes[0]);
        seq![next.1] + actions_after(next.0, outcomes.drop_first())
    }
}

/// All the actions of a dispatch: the first one, then one for each outcome
/// that is reported.
pub open spec fn actions_of(
    platform: Platform,
    job: PrintJobModel,
    temp_dir: Seq<char>,
    outcomes: Seq<OutcomeModel>,
) -> Seq<DispatchActionModel> {
    let first = start_model(platform, job, temp_dir);
    seq![first.1] + actions_after(first.0, outcomes)
}

/// An action that belongs to a print strategy: making the temporary file,
/// looking for the engine, running it, or running the spooler.
pub open spec fn is_strategy_work(action: DispatchActionModel) -> bool {
    ||| action is CreateTempFile
    ||| action is WriteTempFile
    ||| action is FlushTempFile
    ||| action is ProbeEngine
    ||| action is RunEngine
    ||| action is RunSpooler
}

/// How many outcomes a dispatch can still take before it is over, at most.
pub open spec fn steps_left(state: DispatchStateModel) -> nat {
    match state {
        DispatchStateModel::AwaitingPrinter { markup, temp_dir } => 8,
        DispatchStateModel::AwaitingCreate { markup, printer, path } => 7,
        DispatchStateModel::AwaitingWrite { markup, printer, path } => 6,
        DispatchStateModel::AwaitingFlush { markup, printer, path } => 5,
        DispatchStateModel::AwaitingProbe { markup, printer, path, candidate } => if candidate
            == 0 {
            4
        } else {
            3
        },
        DispatchStateModel::AwaitingEngine { markup, printer } => 2,
        DispatchStateModel::AwaitingSpooler { printer, engine_error } => 1,
        DispatchStateModel::Finished => 0,
    }
}

/// A job that is over asks for nothing more, whatever is reported to it.
pub proof fn lemma_finished_asks_for_nothing(outcomes: Seq<OutcomeModel>)
    ensures
        actions_after(DispatchStateModel::Finished, outcomes).len() == outcomes.len(),
        forall|i: int|
            0 <= i < outcomes.len() ==> #[trigger] actions_after(
                DispatchStateModel::Finished,
                outcomes,
            )[i] == DispatchActionModel::Nothing,
    decreases outcomes.len(),
{
    if outcomes.len() > 0 {
        lemma_finished_asks_for_nothing(outcomes.drop_first());
    }
}

/// Every step brings the end of the job closer: a dispatch is over after
/// eight outcomes at the latest.
pub proof fn lemma_every_step_brings_the_end_closer(
    state: DispatchStateModel,
    outcome: OutcomeModel,
)
    requires
        state != DispatchStateModel::Finished,
    ensures
        steps_left(step_model(state, outcome).0) < steps_left(state),
{
}

/// A dispatch hands out one action for each outcome that is reported to it.
pub proof fn lemma_one_action_for_each_outcome(
    state: DispatchStateModel,
    outcomes: Seq<OutcomeModel>,
)
    ensures
        actions_after(state, outcomes).len() == outcomes.len(),
    decreases outcomes.len(),
{
    if outcomes.len() > 0 {
        lemma_one_action_for_each_outcome(
            step_model(state, outcomes[0]).0,
            outcomes.drop_first(),
        );
    }
}

/// The step that ends a job hands out its result.
pub proof fn lemma_the_last_step_gives_the_result(state: DispatchStateModel, outcome: OutcomeModel)
    requires
        state != DispatchStateModel::Finished,
        step_model(state, outcome).0 == DispatchStateModel::Finished,
    ensures
        step_model(state, outcome).1 is Finish,
{
}

proof fn lemma_ends_from(state: DispatchStateModel, outcomes: Seq<OutcomeModel>) -> (last: int)
    requires
        state != DispatchStateModel::Finished,
        outcomes.len() >= steps_left(state),
    ensures
        0 <= last < steps_left(state),
        actions_after(state, outcomes)[last] is Finish,
    decreases outcomes.len(),
{
    let next = step_model(state, outcomes[0]);
    lemma_every_step_brings_the_end_closer(state, outcomes[0]);
    lemma_one_action_for_each_outcome(next.0, outcomes.drop_first());
    let rest = actions_after(next.0, outcomes.drop_first());
    if next.0 == DispatchStateModel::Finished {
        lemma_the_last_step_gives_the_result(state, outcomes[0]);
        0
    } else {
        let later = lemma_ends_from(next.0, outcomes.drop_first());
        assert(actions_after(state, outcomes)[later + 1] == rest[later]);
        later + 1
    }
}

/// Every dispatch ends: whatever is reported to it, the result is handed out
/// with the first action or in answer to one of the first eight outcomes.
/// Nothing is tried a second time.
pub proof fn lemma_every_dispatch_ends(
    platform: Platform,
    job: PrintJobModel,
    temp_dir: Seq<char>,
    outcomes: Seq<OutcomeModel>,
) -> (last: int)
    requires
        outcomes.len() >= 8,
    ensures
        0 <= last <= 8,
        actions_of(platform, job, temp_dir, outcomes)[last] is Finish,
{
    let first = start_model(platform, job, temp_dir);
    if first.0 == DispatchStateModel::Finished {
        0
    } else {
        let later = lemma_ends_from(first.0, outcomes);
        lemma_one_action_for_each_outcome(first.0, outcomes);
        assert(actions_of(platform, job, temp_dir, outcomes)[later + 1] == actions_after(
            first.0,
            outcomes,
        )[later]);
        later + 1
    }
}

/// A name that holds `pdf`, in whatever case, is the name of a virtual
/// printer, with or without white space around it.
pub proof fn lemma_pdf_printer_is_virtual(name: Seq<char>)
    requires
        contains(name, "pdf"@, true),
    ensures
        is_virtual_printer(trimmed(name)),
        trimmed(name).len() > 0,
{
    reveal_strlit("pdf");
    let at = choose|at: int| matches_at(name, at, "pdf"@, true);
    assert(same(name[at + 0], "pdf"@[0], true));
    assert(same(name[at + 2], "pdf"@[2], true));
    lemma_trim_keeps_match(name, at, "pdf"@, true);
    assert(matches_at(trimmed(name), at - skip_spaces(name, 0), "pdf"@, true));
}

/// A job whose own target is a virtual printer fails with `UnsuitablePrinter`
/// as its first action, and no action of the dispatch belongs to a strategy:
/// nothing is written, looked for or run.
pub proof fn lemma_virtual_target_invokes_no_strategy(
    job: PrintJobModel,
    temp_dir: Seq<char>,
    outcomes: Seq<OutcomeModel>,
)
    requires
        job.target.is_some(),
        contains(job.target.unwrap(), "pdf"@, true) || is_virtual_printer(
            trimmed(job.target.unwrap()),
        ),
    ensures
        actions_of(Platform::Windows, job, temp_dir, outcomes)[0] == (DispatchActionModel::Finish {
            result: PrintResultModel::Failure {
                reason: PrintErrorModel::UnsuitablePrinter {
                    name: trimmed(job.target.unwrap()),
                    is_default: false,
                },
                earlier: Seq::empty(),
            },
        }),
        forall|i: int|
            0 <= i < actions_of(Platform::Windows, job, temp_dir, outcomes).len()
                ==> !is_strategy_work(
                #[trigger] actions_of(Platform::Windows, job, temp_dir, outcomes)[i],
            ),
{
    let name = job.target.unwrap();
    if contains(name, "pdf"@, true) {
        lemma_pdf_printer_is_virtual(name);
    } else {
        lemma_virtual_has_a_name(trimmed(name));
    }
    lemma_finished_asks_for_nothing(outcomes);
}

/// The name of a virtual printer is not empty.
pub proof fn lemma_virtual_has_a_name(name: Seq<char>)
    requires
        is_virtual_printer(name),
    ensures
        name.len() > 0,
{
    reveal_strlit("pdf");
    reveal_strlit("onenote");
}

/// A default printer that is a virtual one ends the job with
/// `UnsuitablePrinter` before anything is written or run.
pub proof fn lemma_virtual_default_invokes_no_strategy(
    job: PrintJobModel,
    temp_dir: Seq<char>,
    answer: OutcomeModel,
    outcomes: Seq<OutcomeModel>,
)
    requires
        job.target.is_none() || trimmed(job.target.unwrap()).len() == 0,
        default_name(answer).is_some(),
        is_virtual_printer(default_name(answer).unwrap()),
    ensures
        actions_of(Platform::Windows, job, temp_dir, seq![answer] + outcomes)[1] == (
        DispatchActionModel::Finish {
            result: PrintResultModel::Failure {
                reason: PrintErrorModel::UnsuitablePrinter {
                    name: default_name(answer).unwrap(),
                    is_default: true,
                },
                earlier: Seq::empty(),
            },
        }),
        forall|i: int|
            0 <= i < actions_of(Platform::Windows, job, temp_dir, seq![answer] + outcomes).len()
                ==> !is_strategy_work(
                #[trigger] actions_of(Platform::Windows, job, temp_dir, seq![answer] + outcomes)[i],
            ),
{
    let all = seq![answer] + outcomes;
    assert(all.drop_first() == outcomes);
    lemma_finished_asks_for_nothing(outcomes);
}

/// Where the job names no printer and the system has no default printer, or
/// cannot be asked for it, the job fails with `NoDefaultPrinter` right after
/// the query: no temporary file is written and no strategy is begun.
pub proof fn lemma_no_default_printer_writes_no_file(
    job: PrintJobModel,
    temp_dir: Seq<char>,
    answer: OutcomeModel,
    outcomes: Seq<OutcomeModel>,
)
    requires
        job.target.is_none() || trimmed(job.target.unwrap()).len() == 0,
        default_name(answer).is_none(),
    ensures
        actions_of(Platform::Windows, job, temp_dir, seq![answer] + outcomes)[0] == (
        DispatchActionModel::QueryDefaultPrinter { command: query_line(default_printer_script()) }),
        actions_of(Platform::Windows, job, temp_dir, seq![answer] + outcomes)[1] == (
        DispatchActionModel::Finish {
            result: PrintResultModel::Failure {
                reason: PrintErrorModel::NoDefaultPrinter,
                earlier: Seq::empty(),
            },
        }),
        forall|i: int|
            0 <= i < actions_of(Platform::Windows, job, temp_dir, seq![answer] + outcomes).len()
                ==> !is_strategy_work(
                #[trigger] actions_of(Platform::Windows, job, temp_dir, seq![answer] + outcomes)[i],
            ),
{
    let all = seq![answer] + outcomes;
    assert(all.drop_first() == outcomes);
    lemma_finished_asks_for_nothing(outcomes);
}

/// On a platform without printing support the job fails at once, and the
/// caller is never asked to do anything for it.
pub proof fn lemma_unsupported_platform_asks_for_nothing(
    platform: Platform,
    job: PrintJobModel,
    temp_dir: Seq<char>,
    outcomes: Seq<OutcomeModel>,
)
    requires
        platform != Platform::Windows,
    ensures
        actions_of(platform, job, temp_dir, outcomes)[0] == (DispatchActionModel::Finish {
            result: PrintResultModel::Failure {
                reason: PrintErrorModel::PlatformUnsupported,
                earlier: Seq::empty(),
            },
        }),
        forall|i: int|
            1 <= i < actions_of(platform, job, temp_dir, outcomes).len() ==> #[trigger] actions_of(
                platform,
                job,
                temp_dir,
                outcomes,
            )[i] == DispatchActionModel::Nothing,
{
    lemma_finished_asks_for_nothing(outcomes);
}

} // verus!
