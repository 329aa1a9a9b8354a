//! What a server is set up with, and how its Projects come and go.

use crate::execution::shell::Platform;
use crate::path::{followed, parts, PathStyle};
use crate::protocol::event::SessionEventPayload;
use crate::server::api::{
    program_status, scheduler_status, skill_status, store_status, turn_status, ApiError,
    ProgramErrorKind, SchedulerErrorKind, SkillErrorKind, StoreErrorKind, TurnErrorKind,
};
use crate::server::events::event_name;
use crate::server::host::{local_host, without_brackets};
use crate::server::lifecycle::{
    after_removal, creation_follows, CreationEvent, CreationStage, CreationStep, RemovalEvent,
    RemovalStage, RemovalStep,
};
use crate::server::paths::{data_dir, requested_dir};
use crate::server::picker::{
    command_choice, dialog_choice, picker_of, settled, step_after, FoundPath, PickerRun,
    PickerStepView,
};
use crate::server::workspace::{plain_directory, SeenPath};
use crate::text::{lowered, trimmed};
use vstd::prelude::*;
use vstd::utf8::{decode_utf8, valid_utf8};

verus! {

/// Whether two events are of one kind.
pub open spec fn same_kind(a: SessionEventPayload, b: SessionEventPayload) -> bool {
    match a {
        SessionEventPayload::SessionCreated { .. } => b is SessionCreated,
        SessionEventPayload::SessionChanged { .. } => b is SessionChanged,
        SessionEventPayload::AgentCreated { .. } => b is AgentCreated,
        SessionEventPayload::ActionChanged { .. } => b is ActionChanged,
        SessionEventPayload::HumanRequestOpened { .. } => b is HumanRequestOpened,
        SessionEventPayload::HumanRequestResolved { .. } => b is HumanRequestResolved,
        SessionEventPayload::AgentInputQueued { .. } => b is AgentInputQueued,
        SessionEventPayload::AgentInputApplied { .. } => b is AgentInputApplied,
        SessionEventPayload::UsageUpdated { .. } => b is UsageUpdated,
        SessionEventPayload::TurnCreated => b is TurnCreated,
        SessionEventPayload::TurnStatusChanged { .. } => b is TurnStatusChanged,
        SessionEventPayload::AssistantMessageDelta { .. } => b is AssistantMessageDelta,
        SessionEventPayload::AssistantMessageReset => b is AssistantMessageReset,
        SessionEventPayload::AssistantMessageCompleted => b is AssistantMessageCompleted,
        SessionEventPayload::ModelStepStarted => b is ModelStepStarted,
        SessionEventPayload::ModelStepCompleted => b is ModelStepCompleted,
        SessionEventPayload::ModelStepFailed => b is ModelStepFailed,
        SessionEventPayload::ToolCallStarted => b is ToolCallStarted,
        SessionEventPayload::ToolCallCompleted => b is ToolCallCompleted,
        SessionEventPayload::HostedToolCompleted => b is HostedToolCompleted,
        SessionEventPayload::ContextTrimmed { .. } => b is ContextTrimmed,
        SessionEventPayload::ContextCompacted { .. } => b is ContextCompacted,
        SessionEventPayload::SamplingRetry { .. } => b is SamplingRetry,
        SessionEventPayload::Warning { .. } => b is Warning,
    }
}

spec fn kind_of(p: SessionEventPayload) -> int {
    match p {
        SessionEventPayload::SessionCreated { .. } => 0,
        SessionEventPayload::SessionChanged { .. } => 1,
        SessionEventPayload::AgentCreated { .. } => 2,
        SessionEventPayload::ActionChanged { .. } => 3,
        SessionEventPayload::HumanRequestOpened { .. } => 4,
        SessionEventPayload::HumanRequestResolved { .. } => 5,
        SessionEventPayload::AgentInputQueued { .. } => 6,
        SessionEventPayload::AgentInputApplied { .. } => 7,
        SessionEventPayload::UsageUpdated { .. } => 8,
        SessionEventPayload::TurnCreated => 9,
        SessionEventPayload::TurnStatusChanged { .. } => 10,
        SessionEventPayload::AssistantMessageDelta { .. } => 11,
        SessionEventPayload::AssistantMessageReset => 12,
        SessionEventPayload::AssistantMessageCompleted => 13,
        SessionEventPayload::ModelStepStarted => 14,
        SessionEventPayload::ModelStepCompleted => 15,
        SessionEventPayload::ModelStepFailed => 16,
        SessionEventPayload::ToolCallStarted => 17,
        SessionEventPayload::ToolCallCompleted => 18,
        SessionEventPayload::HostedToolCompleted => 19,
        SessionEventPayload::ContextTrimmed { .. } => 20,
        SessionEventPayload::ContextCompacted { .. } => 21,
        SessionEventPayload::SamplingRetry { .. } => 22,
        SessionEventPayload::Warning { .. } => 23,
    }
}

spec fn kind_named(name: Seq<char>) -> Option<int> {
    if name == "session_created"@ {
        Some(0int)
    } else if name == "session_changed"@ {
        Some(1int)
    } else if name == "agent_created"@ {
        Some(2int)
    } else if name == "action_changed"@ {
        Some(3int)
    } else if name == "human_request_opened"@ {
        Some(4int)
    } else if name == "human_request_resolved"@ {
        Some(5int)
    } else if name == "agent_input_queued"@ {
        Some(6int)
    } else if name == "agent_input_applied"@ {
        Some(7int)
    } else if name == "usage_updated"@ {
        Some(8int)
    } else if name == "turn_created"@ {
        Some(9int)
    } else if name == "turn_status_changed"@ {
        Some(10int)
    } else if name == "assistant_message_delta"@ {
        Some(11int)
    } else if name == "assistant_message_reset"@ {
        Some(12int)
    } else if name == "assistant_message_completed"@ {
        Some(13int)
    } else if name == "model_step_started"@ {
        Some(14int)
    } else if name == "model_step_completed"@ {
        Some(15int)
    } else if name == "model_step_failed"@ {
        Some(16int)
    } else if name == "tool_call_started"@ {
        Some(17int)
    } else if name == "tool_call_completed"@ {
        Some(18int)
    } else if name == "hosted_tool_completed"@ {
        Some(19int)
    } else if name == "context_trimmed"@ {
        Some(20int)
    } else if name == "context_compacted"@ {
        Some(21int)
    } else if name == "sampling_retry"@ {
        Some(22int)
    } else if name == "warning"@ {
        Some(23int)
    } else {
        None
    }
}

proof fn lemma_names_tell_kinds(p: SessionEventPayload)
    ensures
        kind_named(event_name(p)) == Some(kind_of(p)),
{
    reveal_strlit("session_created");
    reveal_strlit("session_changed");
    reveal_strlit("agent_created");
    reveal_strlit("action_changed");
    reveal_strlit("human_request_opened");
    reveal_strlit("human_request_resolved");
    reveal_strlit("agent_input_queued");
    reveal_strlit("agent_input_applied");
    reveal_strlit("usage_updated");
    reveal_strlit("turn_created");
    reveal_strlit("turn_status_changed");
    reveal_strlit("assistant_message_delta");
    reveal_strlit("assistant_message_reset");
    reveal_strlit("assistant_message_completed");
    reveal_strlit("model_step_started");
    reveal_strlit("model_step_completed");
    reveal_strlit("model_step_failed");
    reveal_strlit("tool_call_started");
    reveal_strlit("tool_call_completed");
    reveal_strlit("hosted_tool_completed");
    reveal_strlit("context_trimmed");
    reveal_strlit("context_compacted");
    reveal_strlit("sampling_retry");
    reveal_strlit("warning");
    assert("session_created"@.len() == 15);
    assert("session_changed"@.len() == 15);
    assert("agent_created"@.len() == 13);
    assert("action_changed"@.len() == 14);
    assert("human_request_opened"@.len() == 20);
    assert("human_request_resolved"@.len() == 22);
    assert("agent_input_queued"@.len() == 18);
    assert("agent_input_applied"@.len() == 19);
    assert("usage_updated"@.len() == 13);
    assert("turn_created"@.len() == 12);
    assert("turn_status_changed"@.len() == 19);
    assert("assistant_message_delta"@.len() == 23);
    assert("assistant_message_reset"@.len() == 23);
    assert("assistant_message_completed"@.len() == 27);
    assert("model_step_started"@.len() == 18);
    assert("model_step_completed"@.len() == 20);
    assert("model_step_failed"@.len() == 17);
    assert("tool_call_started"@.len() == 17);
    assert("tool_call_completed"@.len() == 19);
    assert("hosted_tool_completed"@.len() == 21);
    assert("context_trimmed"@.len() == 15);
    assert("context_compacted"@.len() == 17);
    assert("sampling_retry"@.len() == 14);
    assert("warning"@.len() == 7);
    assert("session_changed"@[9] != "session_created"@[9]);
    assert("usage_updated"@[0] != "agent_created"@[0]);
    assert("turn_status_changed"@[0] != "agent_input_applied"@[0]);
    assert("assistant_message_reset"@[18] != "assistant_message_delta"@[18]);
    assert("model_step_started"@[0] != "agent_input_queued"@[0]);
    assert("model_step_completed"@[0] != "human_request_opened"@[0]);
    assert("tool_call_started"@[0] != "model_step_failed"@[0]);
    assert("tool_call_completed"@[0] != "agent_input_applied"@[0]);
    assert("tool_call_completed"@[1] != "turn_status_changed"@[1]);
    assert("context_trimmed"@[0] != "session_created"@[0]);
    assert("context_trimmed"@[0] != "session_changed"@[0]);
    assert("context_compacted"@[0] != "model_step_failed"@[0]);
    assert("context_compacted"@[0] != "tool_call_started"@[0]);
    assert("sampling_retry"@[0] != "action_changed"@[0]);
}

/// Events go by one name exactly if they are of one kind.
pub proof fn law_names_tell_events_apart(a: SessionEventPayload, b: SessionEventPayload)
    ensures
        event_name(a) == event_name(b) <==> same_kind(a, b),
{
    lemma_names_tell_kinds(a);
    lemma_names_tell_kinds(b);
    assert(kind_of(a) == kind_of(b) <==> same_kind(a, b));
}

/// What is not there is answered as not found, what a rule forbids as a conflict, what a request got wrong
/// as a bad request, and all else as a fault of the server: whatever part of the server says so.
pub proof fn law_which_status_a_fault_has(
    store: StoreErrorKind,
    scheduler: SchedulerErrorKind,
    program: ProgramErrorKind,
    turn: TurnErrorKind,
    skill: SkillErrorKind,
)
    ensures
        store_status(store) == 404 <==> store == StoreErrorKind::NotFound,
        store_status(store) == 409 <==> store == StoreErrorKind::Invariant,
        store_status(store) == 500 <==> store == StoreErrorKind::Other,
        scheduler_status(scheduler) == 404 <==> scheduler == SchedulerErrorKind::Store(
            StoreErrorKind::NotFound,
        ),
        scheduler_status(scheduler) == 409 <==> scheduler == SchedulerErrorKind::TerminalSession
            || scheduler == SchedulerErrorKind::NotScheduled,
        scheduler_status(scheduler) == 404 || scheduler_status(scheduler) == 409
            || scheduler_status(scheduler) == 500,
        program_status(program) == 400 <==> program == ProgramErrorKind::Invalid || program
            == ProgramErrorKind::InvalidFile,
        program_status(program) == 409 <==> program == ProgramErrorKind::Duplicate,
        program_status(program) == 500 <==> program == ProgramErrorKind::Other,
        turn_status(turn) == 404 <==> turn == TurnErrorKind::Store(StoreErrorKind::NotFound),
        turn_status(turn) == 409 <==> turn == TurnErrorKind::TerminalTurn || turn
            == TurnErrorKind::Store(StoreErrorKind::Invariant),
        turn_status(turn) == 404 || turn_status(turn) == 409 || turn_status(turn) == 500,
        skill matches SkillErrorKind::Store(fault) ==> skill_status(skill) == store_status(fault),
        skill == SkillErrorKind::NotFound ==> skill_status(skill) == 404,
        skill == SkillErrorKind::AlreadyExists ==> skill_status(skill) == 409,
        skill == SkillErrorKind::Invalid || skill == SkillErrorKind::Yaml ==> skill_status(skill)
            == 400,
{
}

/// A host is this machine exactly if it is called so, whatever the case, or has a loopback address. An
/// address stands in brackets or without.
pub proof fn law_which_hosts_are_local(host: Seq<char>, address: Seq<char>)
    ensures
        local_host(host, true),
        local_host(host, false) <==> lowered(host) == lowered("localhost"@),
        without_brackets("["@ + address + "]"@) == address,
        address.len() > 0 && address[0] != '[' ==> without_brackets(address) == address,
{
    reveal_strlit("[");
    reveal_strlit("]");
    let full = "["@ + address + "]"@;
    assert(full.subrange(0, 1) =~= "["@);
    assert(full.skip(1) =~= address + "]"@);
    let rest = address + "]"@;
    assert(rest.subrange(rest.len() - 1, rest.len() as int) =~= "]"@);
    assert(rest.drop_last() =~= address);
    if address.len() > 0 && address[0] != '[' {
        if crate::text::begins_with(address, "["@) {
            assert(address.subrange(0, 1)[0] == address[0]);
            assert("["@[0] == '[');
        }
    }
}

/// A directory that is named is the one that is used. Otherwise it is the user's own, and for development
/// one below it, so that the two never mix.
pub proof fn law_named_directories_are_used(
    style: PathStyle,
    named: Option<Seq<char>>,
    dev: bool,
    own: Result<Seq<char>, Seq<char>>,
)
    ensures
        named matches Some(path) ==> requested_dir(style, named, dev, own) == Ok::<
            Seq<char>,
            Seq<char>,
        >(path),
        named is None && !dev ==> requested_dir(style, named, dev, own) == own,
        named is None && dev ==> match own {
            Ok(path) => requested_dir(style, named, dev, own) == Ok::<Seq<char>, Seq<char>>(
                followed(style, path, "dev"@),
            ),
            Err(_) => requested_dir(style, named, dev, own) is Err,
        },
{
}

/// A user's data lie where the platform keeps them: below the directory that the platform names for that,
/// and below the home where it names none. Without either there is no place for them.
pub proof fn law_where_data_lie(
    style: PathStyle,
    home: Option<Seq<char>>,
    xdg: Option<Seq<char>>,
    local: Option<Seq<char>>,
)
    ensures
        data_dir(style, Platform::MacOs, home, xdg, local) is Ok <==> home is Some,
        data_dir(style, Platform::Windows, home, xdg, local) is Ok <==> local is Some,
        data_dir(style, Platform::Linux, home, xdg, local) is Ok <==> xdg is Some || home is Some,
        data_dir(style, Platform::OtherUnix, home, xdg, local) == data_dir(
            style,
            Platform::Linux,
            home,
            xdg,
            local,
        ),
        home matches Some(h) ==> data_dir(style, Platform::MacOs, home, xdg, local) == Ok::<
            Seq<char>,
            Seq<char>,
        >(followed(style, h, "Library/Application Support/PaperMachine"@)),
        local matches Some(l) ==> data_dir(style, Platform::Windows, home, xdg, local) == Ok::<
            Seq<char>,
            Seq<char>,
        >(followed(style, l, "PaperMachine"@)),
        xdg matches Some(x) ==> data_dir(style, Platform::Linux, home, xdg, local) == Ok::<
            Seq<char>,
            Seq<char>,
        >(followed(style, x, "papermachine"@)),
        xdg is None ==> (home matches Some(h) ==> data_dir(
            style,
            Platform::Linux,
            home,
            xdg,
            local,
        ) == Ok::<Seq<char>, Seq<char>>(followed(style, h, ".local/share/papermachine"@))),
{
}

/// What a person chose is what their dialog wrote, without the white space around it. Nothing is chosen
/// where the dialog was cancelled, and a dialog that failed chooses nothing.
pub proof fn law_choices_are_what_was_chosen(
    code: Option<i32>,
    stdout: Seq<u8>,
    stderr: Seq<u8>,
)
    ensures
        valid_utf8(stdout) ==> dialog_choice(true, code, stdout, stderr) == Ok::<
            Option<Seq<char>>,
            Seq<char>,
        >(Some(trimmed(decode_utf8(stdout)))),
        dialog_choice(false, Some(1i32), stdout, stderr) == Ok::<Option<Seq<char>>, Seq<char>>(None),
        code != Some(1i32) ==> dialog_choice(false, code, stdout, stderr) is Err,
        !valid_utf8(stdout) ==> dialog_choice(true, code, stdout, stderr) is Err && command_choice(
            true,
            stdout,
            stderr,
        ) is Err,
        command_choice(false, stdout, stderr) is Err,
        valid_utf8(stdout) && trimmed(trimmed(decode_utf8(stdout))).len() > 0 ==> command_choice(
            true,
            stdout,
            stderr,
        ) == Ok::<Option<Seq<char>>, Seq<char>>(Some(trimmed(decode_utf8(stdout)))),
        valid_utf8(stdout) && trimmed(trimmed(decode_utf8(stdout))).len() == 0 ==> command_choice(
            true,
            stdout,
            stderr,
        ) == Ok::<Option<Seq<char>>, Seq<char>>(None),
{
}

/// What was chosen is used where it is a directory, by its real path; a choice that leads elsewhere is an
/// error, and no choice is none.
pub proof fn law_choices_are_settled(selection: Option<Seq<char>>, found: Result<FoundPath, String>)
    ensures
        selection is None ==> settled(selection, found) == Ok::<Option<Seq<char>>, Seq<char>>(None),
        selection matches Some(s) ==> (trimmed(s).len() == 0 ==> settled(selection, found) == Ok::<
            Option<Seq<char>>,
            Seq<char>,
        >(None)),
        selection matches Some(s) ==> (trimmed(s).len() > 0 ==> match found {
            Ok(place) => if place.is_directory {
                settled(selection, found) == Ok::<Option<Seq<char>>, Seq<char>>(
                    Some(place.canonical@),
                )
            } else {
                settled(selection, found) is Err
            },
            Err(_) => settled(selection, found) is Err,
        }),
{
}

/// Every desktop has a program that opens a dialog; Linux has a second one to try.
pub proof fn law_every_desktop_has_a_picker(attempt: nat, run: PickerRun)
    ensures
        picker_of(Platform::MacOs, 0) is Some,
        picker_of(Platform::Windows, 0) is Some,
        picker_of(Platform::Linux, 0) is Some,
        picker_of(Platform::Linux, 1) is Some,
        picker_of(Platform::Linux, 0) != picker_of(Platform::Linux, 1),
        run is Missing ==> step_after(Platform::Linux, 0, run) == PickerStepView::TryNext,
        run is Missing && attempt > 0 ==> (step_after(Platform::Linux, attempt, run)
            matches PickerStepView::Picked(Err(_))),
        run is Failed ==> (step_after(Platform::Linux, attempt, run) matches PickerStepView::Picked(
            Err(_),
        )),
{
    reveal_strlit("zenity");
    reveal_strlit("kdialog");
    assert("zenity"@.len() == 6 && "kdialog"@.len() == 7);
}

/// A Workspace can be used exactly if there is a directory at its path that is no link, and that is
/// reached through none.
pub proof fn law_workspaces_are_real_directories(
    style: PathStyle,
    path: Seq<char>,
    seen: Option<SeenPath>,
)
    ensures
        plain_directory(style, path, seen) <==> (seen matches Some(s) && s.is_directory
            && !s.is_symlink && (s.canonical matches Some(c) && parts(style, c@) == parts(
            style,
            path,
        ))),
{
}

/// A Project is made known only once its runtime was built. One whose runtime could not be built is taken
/// back: its store is closed, it is taken out of the catalog, what was put aside is removed, and the
/// request is answered with what went wrong.
pub proof fn law_projects_are_made_whole_or_not_at_all(
    before: CreationStage,
    event: CreationEvent,
    step: CreationStep,
    after: CreationStage,
    fault: String,
    place: String,
    error: ApiError,
)
    requires
        creation_follows(before, event, step, after),
    ensures
        step is Register <==> event == CreationEvent::Built(None),
        event == CreationEvent::Catalogued(None) ==> step is Build && after
            == CreationStage::Building,
        event == CreationEvent::Built(Some(fault)) ==> step is Close && after
            == CreationStage::Closing(fault),
        before == CreationStage::Closing(fault) && event == CreationEvent::Closed(None) ==> step
            is Retire && after == CreationStage::Retiring(fault),
        before == CreationStage::Retiring(fault) && event == CreationEvent::Retired(Ok(place)) ==> (
        step matches CreationStep::Refuse { cleanup, error: said } && cleanup == Some(place)
            && said.says(500, fault@)),
        event == CreationEvent::Catalogued(Some(error)) || event == CreationEvent::Closed(
            Some(error),
        ) || event == CreationEvent::Retired(Err(error)) ==> step == (CreationStep::Refuse {
            cleanup: None,
            error,
        }) && after == CreationStage::Finished,
{
}

/// A Project that still works is not removed. One that is removed is closed first and taken out of the
/// catalog then; only after that is what was put aside removed. One that could not be taken out is opened
/// again and made known again, and the request is refused with the reason.
pub proof fn law_projects_are_removed_whole_or_not_at_all(
    before: RemovalStage,
    event: RemovalEvent,
    place: String,
    error: ApiError,
)
    ensures
        after_removal(RemovalStage::Checking, RemovalEvent::Checked(None)) == (
            RemovalStep::ForgetAndClose,
            RemovalStage::Closing,
        ),
        after_removal(RemovalStage::Closing, RemovalEvent::Closed(None)) == (
            RemovalStep::Retire,
            RemovalStage::Retiring,
        ),
        after_removal(RemovalStage::Retiring, RemovalEvent::Retired(Ok(place))) == (
            (RemovalStep::Finish { cleanup: place }),
            RemovalStage::Finished,
        ),
        after_removal(before, event).0 is Finish ==> event is Retired,
        after_removal(before, event).0 is ForgetAndClose ==> event == RemovalEvent::Checked(None),
        after_removal(RemovalStage::Checking, RemovalEvent::Checked(Some(error))) == (
            RemovalStep::Refuse(error),
            RemovalStage::Finished,
        ),
        after_removal(
            after_removal(RemovalStage::Retiring, RemovalEvent::Retired(Err(error))).1,
            RemovalEvent::Reopened(None),
        ) == (RemovalStep::RestoreAndRefuse(error), RemovalStage::Finished),
        after_removal(RemovalStage::Retiring, RemovalEvent::Retired(Err(error))).0
            == RemovalStep::Reopen,
        event == RemovalEvent::Closed(Some(error)) || event == RemovalEvent::Reopened(Some(error))
            ==> after_removal(before, event) == (RemovalStep::Refuse(error), RemovalStage::Finished),
{
}

} // verus!
