//! Requests that start, steer and end Sessions.

use crate::json::Json;
use crate::protocol::ids::{ProjectId, SessionId};
use crate::protocol::permissions::AccessPreset;
use crate::protocol::session::{SessionStatus, SessionTrigger, SessionTriggerKind};
use crate::protocol::workflow::{
    WorkflowAgentDeclaration, WorkflowProgramSnapshot, WorkflowRequestMode,
};
use crate::server::api::{ApiError, SchedulerErrorKind, StoreErrorKind, BAD_REQUEST, NOT_FOUND};
use crate::server::models::{
    models_fault, unknown_model, validate_model_profile, validate_model_profile_params,
};
use crate::server::schema::{schema_fault, validate_schema_value};
use crate::text::{debug_text, is_blank, quoted, same, texts, trim, trimmed};
use vstd::prelude::*;

verus! {

/// A request to start a Session.
#[derive(Debug)]
pub struct CreateSessionRequest {
    pub program_slug: String,
    pub title: Option<String>,
    pub request: Option<String>,
    pub instructions: String,
    pub params: Json,
    pub source_session_id: Option<SessionId>,
    pub model: String,
    pub access: AccessPreset,
    pub enabled_skills: Vec<String>,
    /// Access by Agent class, in the order of the class names.
    pub agent_access_overrides: Vec<(String, AccessPreset)>,
}

/// A workflow program, with the Agents that it declares.
#[derive(Debug)]
pub struct LoadedProgram {
    pub snapshot: WorkflowProgramSnapshot,
    pub agents: Vec<WorkflowAgentDeclaration>,
}

/// A Session that is to be stored.
#[derive(Debug)]
pub struct NewSession {
    pub project_id: ProjectId,
    pub program: WorkflowProgramSnapshot,
    pub title: String,
    pub request: String,
    pub instructions: String,
    pub trigger: SessionTrigger,
    pub params: Json,
    pub default_model: String,
    pub access: AccessPreset,
    pub enabled_skills: Vec<String>,
    pub agent_access_overrides: Vec<(String, AccessPreset)>,
}

/// The classes that Agents are declared with.
pub open spec fn classes(agents: Seq<WorkflowAgentDeclaration>) -> Seq<Seq<char>> {
    agents.map_values(|a: WorkflowAgentDeclaration| a.class_name@)
}

/// The classes that overrides name.
pub open spec fn overridden(overrides: Seq<(String, AccessPreset)>) -> Seq<Seq<char>> {
    overrides.map_values(|o: (String, AccessPreset)| o.0@)
}

/// The first name that is not among some others.
pub open spec fn first_stranger(names: Seq<Seq<char>>, known: Seq<Seq<char>>) -> Option<Seq<char>>
    decreases names.len(),
{
    if names.len() == 0 {
        None
    } else if !known.contains(names[0]) {
        Some(names[0])
    } else {
        first_stranger(names.drop_first(), known)
    }
}

/// What a person asks of a Session.
pub open spec fn task_of(request: Option<String>) -> Seq<char> {
    match request {
        Some(r) => trimmed(r@),
        None => Seq::empty(),
    }
}

/// What is wrong with a task, held against what a program expects.
pub open spec fn task_fault(mode: WorkflowRequestMode, slug: Seq<char>, task: Seq<char>) -> Option<
    Seq<char>,
> {
    match mode {
        WorkflowRequestMode::Required => if task.len() == 0 {
            Some("WorkflowProgram "@ + debug_text(slug) + " requires a user task"@)
        } else {
            None
        },
        WorkflowRequestMode::NoTask => if task.len() > 0 {
            Some("WorkflowProgram "@ + debug_text(slug) + " starts without a user task"@)
        } else {
            None
        },
    }
}

/// What is wrong with a request, held against the program that it names.
pub open spec fn program_fault(
    request: CreateSessionRequest,
    models: Seq<Seq<char>>,
    program: LoadedProgram,
) -> Option<Seq<char>> {
    let manifest = program.snapshot.manifest;
    match task_fault(manifest.request_mode, manifest.slug@, task_of(request.request)) {
        Some(fault) => Some(fault),
        None => match first_stranger(
            overridden(request.agent_access_overrides@),
            classes(program.agents@),
        ) {
            Some(class) => Some(
                "Agent access override references unknown class "@ + debug_text(class),
            ),
            None => match schema_fault(manifest.params_schema@, request.params@, "params"@) {
                Some(fault) => Some(fault),
                None => models_fault(models, manifest.params_schema@, request.params@),
            },
        },
    }
}

/// Why a Session cannot be started: the status of the answer, and what it says.
pub open spec fn session_fault(
    request: CreateSessionRequest,
    models: Seq<Seq<char>>,
    program: Option<LoadedProgram>,
) -> Option<(u16, Seq<char>)> {
    let model = trimmed(request.model@);
    if model.len() == 0 {
        Some((BAD_REQUEST, "Session model must name an explicit model profile"@))
    } else if !models.contains(model) {
        Some((BAD_REQUEST, unknown_model(models, model)))
    } else {
        match program {
            None => Some(
                (NOT_FOUND, "WorkflowProgram "@ + request.program_slug@ + " not found"@),
            ),
            Some(p) => match program_fault(request, models, p) {
                Some(fault) => Some((BAD_REQUEST, fault)),
                None => None,
            },
        }
    }
}

/// The title of a Session: the one asked for, or the program's name.
pub open spec fn title_of(title: Option<String>, name: Seq<char>) -> Seq<char> {
    match title {
        Some(t) => if trimmed(t@).len() > 0 {
            trimmed(t@)
        } else {
            name
        },
        None => name,
    }
}

impl NewSession {
    /// Whether a Session is the one that a request asks for.
    pub open spec fn is_asked_for(
        &self,
        project: ProjectId,
        request: CreateSessionRequest,
        program: LoadedProgram,
    ) -> bool {
        &&& self.project_id == project
        &&& self.program == program.snapshot
        &&& self.title@ == title_of(request.title, program.snapshot.manifest.name@)
        &&& self.request@ == task_of(request.request)
        &&& self.instructions@ == trimmed(request.instructions@)
        &&& self.trigger.kind == (if request.source_session_id is Some {
            SessionTriggerKind::User
        } else {
            SessionTriggerKind::Manual
        })
        &&& self.trigger.source_session_id == request.source_session_id
        &&& self.params == request.params
        &&& self.default_model@ == trimmed(request.model@)
        &&& self.access == request.access
        &&& self.enabled_skills == request.enabled_skills
        &&& self.agent_access_overrides == request.agent_access_overrides
    }
}

fn is_declared(agents: &Vec<WorkflowAgentDeclaration>, class: &str) -> (r: bool)
    ensures
        r == classes(agents@).contains(class@),
{
    let ghost all = classes(agents@);
    let mut i: usize = 0;
    while i < agents.len()
        invariant
            i <= agents@.len(),
            all == classes(agents@),
            forall|k: int| 0 <= k < i ==> all[k] != class@,
        decreases agents.len() - i,
    {
        assert(all[i as int] == agents@[i as int].class_name@);
        if same(agents[i].class_name.as_str(), class) {
            return true;
        }
        i = i + 1;
    }
    false
}

fn find_stranger(
    overrides: &Vec<(String, AccessPreset)>,
    agents: &Vec<WorkflowAgentDeclaration>,
) -> (r: Option<String>)
    ensures
        crate::text::maybe(r) == first_stranger(overridden(overrides@), classes(agents@)),
{
    let ghost all = overridden(overrides@);
    let ghost known = classes(agents@);
    let mut i: usize = 0;
    assert(all.skip(0) =~= all);
    while i < overrides.len()
        invariant
            i <= overrides@.len(),
            all == overridden(overrides@),
            known == classes(agents@),
            first_stranger(all, known) == first_stranger(all.skip(i as int), known),
        decreases overrides.len() - i,
    {
        assert(all.skip(i as int)[0] == overrides@[i as int].0@);
        if !is_declared(agents, overrides[i].0.as_str()) {
            return Some(overrides[i].0.clone());
        }
        assert(all.skip(i as int).drop_first() =~= all.skip(i + 1));
        i = i + 1;
    }
    None
}

fn user_task(request: &Option<String>) -> (r: String)
    ensures
        r@ == task_of(*request),
{
    match request {
        Some(r) => trim(r.as_str()),
        None => {
            let r = String::new();
            assert(r@ =~= Seq::<char>::empty());
            r
        },
    }
}

fn choose_title(title: &Option<String>, name: &str) -> (r: String)
    ensures
        r@ == title_of(*title, name@),
{
    match title {
        Some(t) => {
            if is_blank(t.as_str()) {
                name.to_owned()
            } else {
                trim(t.as_str())
            }
        },
        None => name.to_owned(),
    }
}

fn about_program(slug: &str, what: &str) -> (r: String)
    ensures
        r@ == "WorkflowProgram "@ + debug_text(slug@) + what@,
{
    let mut r = "WorkflowProgram ".to_owned();
    let name = quoted(slug);
    r.append(name.as_str());
    r.append(what);
    r
}

fn check_task(program: &WorkflowProgramSnapshot, request: &Option<String>) -> (r: Result<(), ApiError>)
    ensures
        crate::server::models::refused(
            r,
            task_fault(program.manifest.request_mode, program.manifest.slug@, task_of(*request)),
        ),
{
    let empty = match request {
        Some(r) => is_blank(r.as_str()),
        None => true,
    };
    match program.manifest.request_mode {
        WorkflowRequestMode::Required => {
            if empty {
                return Err(
                    ApiError::bad_request(
                        about_program(program.manifest.slug.as_str(), " requires a user task"),
                    ),
                );
            }
        },
        WorkflowRequestMode::NoTask => {
            if !empty {
                return Err(
                    ApiError::bad_request(
                        about_program(
                            program.manifest.slug.as_str(),
                            " starts without a user task",
                        ),
                    ),
                );
            }
        },
    }
    Ok(())
}

fn check_program(request: &CreateSessionRequest, models: &Vec<String>, program: &LoadedProgram) -> (r:
    Result<(), ApiError>)
    ensures
        crate::server::models::refused(r, program_fault(*request, texts(models@), *program)),
{
    check_task(&program.snapshot, &request.request)?;
    if let Some(class) = find_stranger(&request.agent_access_overrides, &program.agents) {
        let mut message = "Agent access override references unknown class ".to_owned();
        let name = quoted(class.as_str());
        message.append(name.as_str());
        return Err(ApiError::bad_request(message));
    }
    let schema = &program.snapshot.manifest.params_schema;
    match validate_schema_value(schema, &request.params, "params") {
        Ok(()) => {},
        Err(fault) => {
            return Err(ApiError::bad_request(fault));
        },
    }
    validate_model_profile_params(models, schema, &request.params)
}

/// The Session that a request asks for, or why it cannot be started.
pub fn create_session(
    project_id: ProjectId,
    request: CreateSessionRequest,
    models: &Vec<String>,
    program: Option<LoadedProgram>,
) -> (r: Result<NewSession, ApiError>)
    ensures
        match r {
            Ok(session) => session_fault(request, texts(models@), program) is None
                && session.is_asked_for(project_id, request, program->0),
            Err(e) => session_fault(request, texts(models@), program) matches Some(fault)
                && e.says(fault.0, fault.1),
        },
{
    let model = trim(request.model.as_str());
    if is_blank(request.model.as_str()) {
        return Err(
            ApiError::bad_request("Session model must name an explicit model profile".to_owned()),
        );
    }
    validate_model_profile(models, model.as_str())?;
    let program = match program {
        Some(p) => p,
        None => {
            let mut entity = "WorkflowProgram ".to_owned();
            entity.append(request.program_slug.as_str());
            return Err(ApiError::not_found(entity.as_str()));
        },
    };
    check_program(&request, models, &program)?;
    let title = choose_title(&request.title, program.snapshot.manifest.name.as_str());
    let task = user_task(&request.request);
    let kind = if request.source_session_id.is_some() {
        SessionTriggerKind::User
    } else {
        SessionTriggerKind::Manual
    };
    Ok(
        NewSession {
            project_id,
            program: program.snapshot,
            title,
            request: task,
            instructions: trim(request.instructions.as_str()),
            trigger: SessionTrigger { kind, source_session_id: request.source_session_id },
            params: request.params,
            default_model: model,
            access: request.access,
            enabled_skills: request.enabled_skills,
            agent_access_overrides: request.agent_access_overrides,
        },
    )
}

/// A Session that is started names a model that is known, has the task that its program expects,
/// and meets its program's schema.
pub proof fn law_started_sessions_are_sound(
    request: CreateSessionRequest,
    models: Seq<Seq<char>>,
    program: LoadedProgram,
)
    requires
        session_fault(request, models, Some(program)) is None,
    ensures
        models.contains(trimmed(request.model@)),
        program.snapshot.manifest.request_mode == WorkflowRequestMode::Required <==> task_of(
            request.request,
        ).len() > 0,
        schema_fault(
            program.snapshot.manifest.params_schema@,
            request.params@,
            "params"@,
        ) is None,
{
}

/// The number of Sessions that are listed where a request names none.
pub const DEFAULT_SESSION_LIST_LIMIT: usize = 100;

/// Whether a number of Sessions can be listed.
pub fn check_session_limit(limit: usize) -> (r: Result<(), ApiError>)
    ensures
        match r {
            Ok(()) => 1 <= limit <= 200,
            Err(e) => !(1 <= limit <= 200) && e.says(
                BAD_REQUEST,
                "Session list limit must be 1..=200"@,
            ),
        },
{
    if limit < 1 || limit > 200 {
        return Err(ApiError::bad_request("Session list limit must be 1..=200".to_owned()));
    }
    Ok(())
}

/// A rule of a store that a request breaks.
#[derive(Debug, PartialEq, Eq)]
pub struct StoreFault {
    pub kind: StoreErrorKind,
    pub detail: String,
}

/// Whether a Session can be shown as one of a Project.
pub fn check_session_project(session_project: ProjectId, project: ProjectId, session: &str) -> (r:
    Result<(), ApiError>)
    ensures
        match r {
            Ok(()) => session_project == project,
            Err(e) => session_project != project && e.says(
                NOT_FOUND,
                "Session "@ + session@ + " not found"@,
            ),
        },
{
    if session_project == project {
        return Ok(());
    }
    let mut entity = "Session ".to_owned();
    entity.append(session);
    Err(ApiError::not_found(entity.as_str()))
}

/// What a control message says.
pub fn control_content(content: &str) -> (r: Result<String, ApiError>)
    ensures
        match r {
            Ok(c) => trimmed(content@).len() > 0 && c@ == trimmed(content@),
            Err(e) => trimmed(content@).len() == 0 && e.says(
                BAD_REQUEST,
                "control message must not be empty"@,
            ),
        },
{
    if is_blank(content) {
        return Err(ApiError::bad_request("control message must not be empty".to_owned()));
    }
    Ok(trim(content))
}

/// Whether a Session of a Project can be steered through a Project.
pub fn check_control_project(session_project: ProjectId, project: ProjectId) -> (r: Result<
    (),
    StoreFault,
>)
    ensures
        match r {
            Ok(()) => session_project == project,
            Err(e) => session_project != project && e.kind == StoreErrorKind::Invariant && e.detail@
                == "Session belongs to another Project"@,
        },
{
    if session_project == project {
        return Ok(());
    }
    Err(
        StoreFault {
            kind: StoreErrorKind::Invariant,
            detail: "Session belongs to another Project".to_owned(),
        },
    )
}

/// Whether an answer meets the schema of the question.
pub fn check_answer(schema: &Json, answer: &Json) -> (r: Result<(), ApiError>)
    ensures
        crate::server::models::refused(r, schema_fault(schema@, answer@, "answer"@)),
{
    match validate_schema_value(schema, answer, "answer") {
        Ok(()) => Ok(()),
        Err(fault) => Err(ApiError::bad_request(fault)),
    }
}

/// What has to happen before a Session is archived.
#[derive(Clone, Copy, Debug, PartialEq, Eq, Structural)]
pub enum ArchiveStep {
    /// The Session is archived already.
    Nothing,
    /// The Session runs, and has to be cancelled first.
    Cancel,
    /// The Session has ended.
    Archive,
}

/// What archiving a Session begins with.
pub fn archive_step(archived: bool, status: SessionStatus) -> (r: ArchiveStep)
    ensures
        r == (if archived {
            ArchiveStep::Nothing
        } else if status.ended() {
            ArchiveStep::Archive
        } else {
            ArchiveStep::Cancel
        }),
{
    if archived {
        ArchiveStep::Nothing
    } else if status.is_terminal() {
        ArchiveStep::Archive
    } else {
        ArchiveStep::Cancel
    }
}

/// Whether a Session can be archived once its cancellation came back. One that ended meanwhile
/// needs none.
pub fn cancelled_for_archive(outcome: Option<SchedulerErrorKind>) -> (r: bool)
    ensures
        r == (outcome is None || outcome == Some(SchedulerErrorKind::TerminalSession)),
{
    match outcome {
        None => true,
        Some(SchedulerErrorKind::TerminalSession) => true,
        Some(_) => false,
    }
}

/// A skill that a request describes.
#[derive(Debug, PartialEq, Eq)]
pub struct CreateProjectSkillRequest {
    pub slug: String,
    pub name: String,
    pub description: String,
    pub instructions: String,
}

impl CreateProjectSkillRequest {
    /// The skill that is created.
    pub fn trimmed(&self) -> (r: CreateProjectSkillRequest)
        ensures
            r.slug@ == trimmed(self.slug@),
            r.name@ == trimmed(self.name@),
            r.description@ == trimmed(self.description@),
            r.instructions@ == trimmed(self.instructions@),
    {
        CreateProjectSkillRequest {
            slug: trim(self.slug.as_str()),
            name: trim(self.name.as_str()),
            description: trim(self.description.as_str()),
            instructions: trim(self.instructions.as_str()),
        }
    }
}

} // verus!
