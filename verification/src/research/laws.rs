//! What becomes of runs and of programs.

use crate::digest::sha256_text;
use crate::json::{field, text_field, Json, JsonView};
use crate::path::{
    followed, is_file_name, law_a_name_leads_one_further, parts, PartView, PathStyle,
};
use crate::protocol::ids::{Timestamp, WorkflowRunId};
use crate::protocol::model::{ItemView, MessageRole, ModelEventView};
use crate::protocol::research::WorkflowRunStatus;
use crate::research::catalog::{
    first_usable, has_key, owner_of, says_true, user_path, InterpreterFacts, SavePlan,
    SourceValidation, WorkflowCatalog, WorkflowCatalogError, WorkflowManifest, WorkflowSource,
};
use crate::research::generator::{
    described, generation_prompt, generation_view, source_after, unfenced,
    WorkflowGenerationRequest,
};
use crate::research::scheduler::{
    counted_seconds, follows, newly_started, run_after, LoadedRun, RunEvent, RunStage, RunStep,
};
use crate::text::{begins_with, joined, lines, maybe, occurs, stands_at, trimmed};
use vstd::prelude::*;
use vstd::utf8::encode_utf8;

verus! {

/// Time is counted in whole seconds, the last one left out unless it is the only one: whoever used any
/// used at least one.
pub proof fn law_time_is_counted(elapsed: u128)
    ensures
        counted_seconds(elapsed) == 0 <==> elapsed == 0,
        0 < elapsed < 2_000_000_000 ==> counted_seconds(elapsed) == 1,
        1_000_000_000 <= elapsed && elapsed < 1_000_000_000 * u64::MAX ==> counted_seconds(elapsed)
            * 1_000_000_000 <= elapsed < (counted_seconds(elapsed) + 1) * 1_000_000_000,
{
}

/// A run that is taken up is run, for as long as its time lasts, and without a limit where it has none.
/// One that was only created is marked as running before. One whose time is used up is not run.
pub proof fn law_runs_are_run(run: LoadedRun, step: RunStep, stage: RunStage)
    ensures
        follows(RunStage::Loading, RunEvent::Loaded(Ok(run)), step, stage) && run.status
            == WorkflowRunStatus::Created ==> stage == RunStage::Starting(run) && (
        step matches RunStep::SetStatus(change) && change.status == WorkflowRunStatus::Running),
        (follows(RunStage::Loading, RunEvent::Loaded(Ok(run)), step, stage) && run.status
            != WorkflowRunStatus::Created) || follows(
            RunStage::Starting(run),
            RunEvent::StatusSet(None),
            step,
            stage,
        ) ==> match run.max_wall_time_seconds {
            None => step == (RunStep::Execute { seconds: None }) && stage == RunStage::Executing(
                run,
            ),
            Some(limit) => if run.wall_time_seconds < limit {
                &&& step matches RunStep::Execute { seconds: Some(s) } && s + run.wall_time_seconds
                    == limit
                &&& stage == RunStage::Executing(run)
            } else {
                &&& step == RunStep::Measure
                &&& stage matches RunStage::Measuring(Err(_))
            },
        },
{
}

/// A run that there is room for is read, and one that was cancelled while it waited ends.
pub proof fn law_waiting_runs_are_read(step: RunStep, stage: RunStage)
    ensures
        follows(RunStage::Waiting, RunEvent::Permitted(None), step, stage) ==> step == RunStep::Load
            && stage == RunStage::Loading,
        follows(RunStage::Waiting, RunEvent::CancelledEarly, step, stage) ==> (step
            matches RunStep::Finish(Err(_))) && stage == RunStage::Finished,
{
}

/// What goes wrong around a run ends it, and is what the run ends with.
pub proof fn law_faults_end_a_run(
    before: RunStage,
    event: RunEvent,
    fault: String,
    step: RunStep,
    stage: RunStage,
)
    requires
        follows(before, event, step, stage),
        event == RunEvent::Permitted(Some(fault)) || event == RunEvent::Loaded(Err(fault)) || event
            == RunEvent::StatusSet(Some(fault)) || event == RunEvent::UsageAdded(Some(fault))
            || event == RunEvent::Stored(Some(fault)) || (event matches RunEvent::Reloaded {
            status: Err(f),
            ..
        } && f == fault),
    ensures
        stage == RunStage::Finished,
        step matches RunStep::Finish(Err(e)) && e@ == fault@,
{
}

/// What a program returned is what its run comes to. The time that the program took is added, the run is
/// read again, and unless it has ended meanwhile what came of it is stored: the output where there is
/// one, the failure otherwise, and that it was cancelled where it was. The run ends with what the program
/// returned.
pub proof fn law_results_are_stored(
    run: LoadedRun,
    result: Result<Json, String>,
    elapsed: u128,
    status: WorkflowRunStatus,
    cancelled: bool,
    add: RunStep,
    recording: RunStage,
    reload: RunStep,
    reloading: RunStage,
    store: RunStep,
    storing: RunStage,
    finish: RunStep,
    finished: RunStage,
)
    requires
        follows(
            RunStage::Executing(run),
            RunEvent::Executed { result, elapsed },
            add,
            recording,
        ),
        follows(recording, RunEvent::UsageAdded(None), reload, reloading),
        follows(
            reloading,
            RunEvent::Reloaded { status: Ok(status), cancelled },
            store,
            storing,
        ),
    ensures
        add == (RunStep::AddUsage { wall_time_seconds: counted_seconds(elapsed) }),
        reload == RunStep::Reload,
        status == WorkflowRunStatus::Completed || status == WorkflowRunStatus::Failed || status
            == WorkflowRunStatus::Cancelled ==> store == RunStep::Finish(result) && storing
            == RunStage::Finished,
        !status.ended() && cancelled ==> (store matches RunStep::SetStatus(change) && change.status
            == WorkflowRunStatus::Cancelled),
        !status.ended() && !cancelled ==> match result {
            Ok(output) => store matches RunStep::Complete { output: kept } && kept@ == output@,
            Err(e) => store matches RunStep::SetStatus(change) && change.status
                == WorkflowRunStatus::Failed && maybe(change.reason) == Some(e@),
        },
        !status.ended() && follows(storing, RunEvent::Stored(None), finish, finished) ==> finished
            == RunStage::Finished && (finish matches RunStep::Finish(r) && match (r, result) {
            (Ok(a), Ok(b)) => a@ == b@,
            (Err(a), Err(b)) => a@ == b@,
            _ => false,
        }),
{
}

/// A program that runs out of time fails its run, and the time that it took still counts.
pub proof fn law_time_runs_out(
    run: LoadedRun,
    elapsed: u128,
    step: RunStep,
    stage: RunStage,
)
    requires
        follows(RunStage::Executing(run), RunEvent::TimedOut { elapsed }, step, stage),
    ensures
        step == (RunStep::AddUsage { wall_time_seconds: counted_seconds(elapsed) }),
        stage matches RunStage::Recording(Err(_)),
{
}

/// Whether a run is among those that are to be recovered.
pub open spec fn is_among(
    runs: Seq<(WorkflowRunId, WorkflowRunStatus)>,
    run: WorkflowRunId,
) -> bool {
    exists|i: int| 0 <= i < runs.len() && (#[trigger] runs[i]).0 == run
}

proof fn lemma_among_drop(runs: Seq<(WorkflowRunId, WorkflowRunStatus)>, run: WorkflowRunId)
    requires
        runs.len() > 0,
    ensures
        is_among(runs, run) <==> is_among(runs.drop_last(), run) || runs.last().0 == run,
{
    let rest = runs.drop_last();
    if is_among(runs, run) {
        let i = choose|i: int| 0 <= i < runs.len() && (#[trigger] runs[i]).0 == run;
        if i < rest.len() {
            assert(rest[i] == runs[i]);
        }
    }
    if is_among(rest, run) {
        let i = choose|i: int| 0 <= i < rest.len() && (#[trigger] rest[i]).0 == run;
        assert(rest[i] == runs[i]);
    }
    assert(runs[runs.len() - 1] == runs.last());
}

proof fn lemma_pushed(list: Seq<WorkflowRunId>, x: WorkflowRunId, run: WorkflowRunId)
    ensures
        list.push(x).contains(run) <==> list.contains(run) || run == x,
{
    let made = list.push(x);
    if list.contains(run) {
        let i = choose|i: int| 0 <= i < list.len() && list[i] == run;
        assert(made[i] == run);
    }
    assert(made[list.len() as int] == x);
    if made.contains(run) {
        let i = choose|i: int| 0 <= i < made.len() && made[i] == run;
        if i < list.len() {
            assert(list[i] == run);
        }
    }
}

/// Recovering starts every run that was not started yet, each once, and no other; all of them are known
/// then, and those that were known stay known.
pub proof fn law_every_run_is_recovered(
    scheduled: Seq<WorkflowRunId>,
    runs: Seq<(WorkflowRunId, WorkflowRunStatus)>,
    run: WorkflowRunId,
)
    ensures
        run_after(scheduled, runs).contains(run) <==> scheduled.contains(run) || is_among(runs, run),
        newly_started(scheduled, runs).contains(run) <==> is_among(runs, run)
            && !scheduled.contains(run),
        newly_started(scheduled, runs).no_duplicates(),
    decreases runs.len(),
{
    if runs.len() > 0 {
        let rest = runs.drop_last();
        let last = runs.last().0;
        law_every_run_is_recovered(scheduled, rest, run);
        law_every_run_is_recovered(scheduled, rest, last);
        lemma_among_drop(runs, run);
        lemma_pushed(run_after(scheduled, rest), last, run);
        let before = newly_started(scheduled, rest);
        lemma_pushed(before, last, run);
        if !run_after(scheduled, rest).contains(last) {
            assert(!before.contains(last));
            let made = before.push(last);
            assert forall|i: int, j: int|
                0 <= i < made.len() && 0 <= j < made.len() && i != j implies made[i] != made[j] by {
                if i < before.len() && j < before.len() {
                    assert(made[i] == before[i] && made[j] == before[j]);
                } else if i < before.len() {
                    assert(before.contains(made[i]));
                } else {
                    assert(before.contains(made[j]));
                }
            }
        }
    } else {
        assert(!is_among(runs, run));
    }
}

proof fn lemma_occurs_in(x: Seq<char>, y: Seq<char>, z: Seq<char>)
    ensures
        occurs(x + y + z, y),
{
    assert((x + y + z).subrange(x.len() as int, (x.len() + y.len()) as int) =~= y);
    assert(stands_at(x + y + z, y, x.len() as int));
}

/// A request for a program tells the model what was asked for: the description, the name and the slug. It
/// goes to the model that was named, or else to the default, and offers no tools.
pub proof fn law_models_are_told_what_to_write(
    request: WorkflowGenerationRequest,
    default_model: Seq<char>,
)
    ensures
        ({
            let made = generation_view(request, default_model);
            &&& made.model == (match maybe(request.model) {
                Some(model) => model,
                None => default_model,
            })
            &&& made.tools.len() == 0 && made.hosted_tools.len() == 0
            &&& made.input.len() == 1
            &&& made.input[0] matches ItemView::Message { role, content } && role
                == MessageRole::User && occurs(content, trimmed(request.description@)) && (maybe(
                request.name,
            ) matches Some(name) ==> occurs(content, "Requested name: "@ + name)) && (maybe(
                request.slug,
            ) matches Some(slug) ==> occurs(content, "Requested slug: "@ + slug))
        }),
{
    let description = trimmed(request.description@);
    let content = generation_prompt(
        request.description@,
        maybe(request.name),
        maybe(request.slug),
    );
    let name = crate::research::generator::text_or(
        maybe(request.name),
        "choose a concise name"@,
    );
    let slug = crate::research::generator::text_or(
        maybe(request.slug),
        "derive lowercase kebab-case"@,
    );
    let head = "Create a workflow for this request:\n"@;
    let to_name = "\n\nRequested name: "@;
    let to_slug = "\nRequested slug: "@;
    assert(content =~= head + description + (to_name + name + to_slug + slug));
    lemma_occurs_in(head, description, to_name + name + to_slug + slug);
    reveal_strlit("\n\nRequested name: ");
    reveal_strlit("\n\n");
    reveal_strlit("Requested name: ");
    reveal_strlit("\nRequested slug: ");
    reveal_strlit("\n");
    reveal_strlit("Requested slug: ");
    assert("\n\n"@ + "Requested name: "@ =~= to_name);
    assert("\n"@ + "Requested slug: "@ =~= to_slug);
    let labelled = "Requested name: "@ + name;
    assert(content =~= (head + description + "\n\n"@) + labelled + (to_slug + slug));
    lemma_occurs_in(head + description + "\n\n"@, labelled, to_slug + slug);
    let sluggish = "Requested slug: "@ + slug;
    assert(content =~= (head + description + to_name + name + "\n"@) + sluggish
        + Seq::<char>::empty());
    lemma_occurs_in(
        head + description + to_name + name + "\n"@,
        sluggish,
        Seq::empty(),
    );
}

/// A description can be worked on exactly if it says something and is not too long.
pub proof fn law_which_descriptions_are_worked_on(description: Seq<char>)
    ensures
        described(description) <==> trimmed(description).len() > 0 && encode_utf8(
            trimmed(description),
        ).len() <= 12_000,
{
}

/// What a model writes is put together from its parts. A completed item counts only where nothing came
/// before it.
pub proof fn law_sources_grow(source: Seq<char>, delta: Seq<char>, item: JsonView, part: JsonView)
    ensures
        source_after(source, ModelEventView::OutputTextDelta(delta)) == source + delta,
        source.len() > 0 ==> source_after(source, ModelEventView::ResponseItemCompleted(item))
            == source,
        field(item, "content"@) == Some(JsonView::Array(seq![part])) ==> (text_field(
            part,
            "text"@,
        ) matches Some(t) ==> source_after(
            Seq::empty(),
            ModelEventView::ResponseItemCompleted(item),
        ) == t),
{
    let one = seq![part];
    assert(one[0] == part);
}

/// A source without a fence stays as it is, up to the white space around it; one in a fence is what
/// stands in the fence.
pub proof fn law_fences_are_taken_off(
    source: Seq<char>,
    open: Seq<char>,
    body: Seq<Seq<char>>,
    close: Seq<char>,
)
    ensures
        !begins_with(trimmed(source), "```"@) ==> unfenced(source) == trimmed(source) + "\n"@,
        begins_with(trimmed(source), "```"@) && lines(trimmed(source)) == seq![open] + body + seq![
            close,
        ] && trimmed(close) == "```"@ ==> unfenced(source) == joined(body, "\n"@) + "\n"@,
        begins_with(trimmed(source), "```"@) && lines(trimmed(source)) == seq![open] + body && (
        body.len() > 0 ==> trimmed(body.last()) != "```"@) ==> unfenced(source) == joined(
            body,
            "\n"@,
        ) + "\n"@,
{
    let fenced = seq![open] + body + seq![close];
    assert(fenced.drop_first() =~= body + seq![close]);
    assert((body + seq![close]).drop_last() =~= body);
    assert((body + seq![close]).last() == close);
    let half = seq![open] + body;
    assert(half.drop_first() =~= body);
}

/// The interpreter that is used is the first that can be: it is a file, it ran, and it said that it is
/// new enough. There is none exactly if none can be used.
pub proof fn law_the_first_interpreter_is_used(facts: Seq<InterpreterFacts>, i: int)
    ensures
        first_usable(facts) matches Some(at) ==> 0 <= at < facts.len() && facts[at].is_file
            && facts[at].success && says_true(facts[at].stdout@),
        0 <= i < facts.len() && facts[i].is_file && facts[i].success && says_true(facts[i].stdout@)
            ==> (first_usable(facts) matches Some(at) && at <= i),
    decreases facts.len(),
{
    if facts.len() > 0 {
        let rest = facts.drop_last();
        law_the_first_interpreter_is_used(rest, i);
        if 0 <= i < rest.len() {
            assert(rest[i] == facts[i]);
        }
        if let Some(at) = first_usable(rest) {
            assert(rest[at] == facts[at]);
        }
    }
}

/// On a Unix host the file of a user's program lies below the root of the catalog, in the directory of
/// users, then of its slug, then of its version.
pub proof fn law_where_programs_are_kept(root: Seq<char>, slug: Seq<char>, version: Seq<char>)
    requires
        root.len() > 0,
        is_file_name(slug),
        is_file_name(version),
    ensures
        parts(PathStyle::Unix, user_path(PathStyle::Unix, root, slug, version)) == parts(
            PathStyle::Unix,
            root,
        ) + seq![
            PartView::Name("user"@),
            PartView::Name(slug),
            PartView::Name(version),
            PartView::Name("workflow.pm"@),
        ],
{
    reveal_strlit("user");
    reveal_strlit("workflow.pm");
    reveal_strlit(".");
    reveal_strlit("..");
    assert("user"@.len() == 4 && "workflow.pm"@.len() == 11);
    let style = PathStyle::Unix;
    let users = followed(style, root, "user"@);
    let one = followed(style, users, slug);
    let two = followed(style, one, version);
    law_a_name_leads_one_further(root, "user"@);
    law_a_name_leads_one_further(users, slug);
    law_a_name_leads_one_further(one, version);
    law_a_name_leads_one_further(two, "workflow.pm"@);
    assert(parts(style, followed(style, two, "workflow.pm"@)) =~= parts(style, root) + seq![
        PartView::Name("user"@),
        PartView::Name(slug),
        PartView::Name(version),
        PartView::Name("workflow.pm"@),
    ]);
}

/// A new program is written as it was sent, to the file of its slug and version; and it is registered as
/// the user's, under the identity of its source. One that is not valid is refused.
pub proof fn law_new_programs_are_written(
    catalog: WorkflowCatalog,
    source: Seq<char>,
    validation: SourceValidation,
    manifest: WorkflowManifest,
    now: Timestamp,
    r: Result<SavePlan, WorkflowCatalogError>,
)
    requires
        catalog.saves(source, validation, now, r),
        validation.manifest == Some(manifest),
    ensures
        !validation.valid ==> r matches Err(WorkflowCatalogError::Invalid(_)),
        validation.valid && !has_key(catalog.entries@, (manifest.slug@, manifest.version@)) ==> (
        r matches Ok(SavePlan::Write { path, entry }) && path@ == user_path(
            catalog.style,
            catalog.workflows_root@,
            manifest.slug@,
            manifest.version@,
        ) && (entry matches Ok(loaded) ==> loaded.source_code@ == source
            && loaded.registration.manifest == manifest && loaded.registration.source
            == WorkflowSource::User && loaded.registration.sha256@ == sha256_text(
            encode_utf8(source),
        ) && loaded.path@ == path@ && loaded.registration.updated_at == now)),
{
}

/// A program comes from where its directory says: the library's own or a user's. No other directory
/// holds programs.
pub proof fn law_directories_name_the_owner(first: Seq<char>)
    ensures
        owner_of("builtin"@) == Some(WorkflowSource::Builtin),
        owner_of("user"@) == Some(WorkflowSource::User),
        owner_of(first) is Some ==> first == "builtin"@ || first == "user"@,
{
    reveal_strlit("builtin");
    reveal_strlit("user");
    assert("builtin"@.len() == 7 && "user"@.len() == 4);
}

} // verus!
