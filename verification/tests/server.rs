//! The rules of the server.

use papermachine::execution::shell::Platform;
use papermachine::json::Json;
use papermachine::path::PathStyle;
use papermachine::protocol::event::{SessionEvent, SessionEventPayload};
use papermachine::protocol::ids::{
    AgentId, EventId, HumanRequestId, ProjectId, SessionId, StepId, Timestamp, TurnId,
    WorkflowProgramId, WorkspaceId,
};
use papermachine::protocol::model::{
    MessageRole, ModelEvent, ModelInputItem, ModelRequest, ModelResponseFormat, ModelToolChoice,
};
use papermachine::protocol::permissions::AccessPreset;
use papermachine::protocol::project::{Project, WorkspaceAttachment};
use papermachine::protocol::session::{SessionStatus, SessionTriggerKind};
use papermachine::protocol::workflow::{
    WorkflowAgentDeclaration, WorkflowProgramManifest, WorkflowProgramSnapshot,
    WorkflowProgramSource, WorkflowRequestMode,
};
use papermachine::server::api::{
    parse_id, ApiError, ProgramErrorKind, SchedulerErrorKind, SkillErrorKind, StoreErrorKind,
    TurnErrorKind,
};
use papermachine::server::demo::{demo_structured_response, DemoModelClient};
use papermachine::server::events::{
    artifact_headers, event_mark, event_type, is_of_project, project_step, resync_update,
    update_parts, LiveStep, ProjectStep, SessionFollower,
};
use papermachine::server::host::{
    address_of, host_address, is_local_host, is_loopback_authority, may_pass,
};
use papermachine::server::lifecycle::{
    CreationEvent, CreationStep, ProjectCreation, ProjectRemoval, RemovalEvent, RemovalStep,
};
use papermachine::server::models::{
    known_models, validate_model_profile, validate_model_profile_params,
};
use papermachine::server::paths::{config_path, requested_data_dir, resolve_data_dir};
use papermachine::server::picker::{
    command_selection, dialog_selection, no_picker, normalize_selection, pick_directory,
    picker_command, picker_step, selected_path, FoundPath, PickerRun, PickerStep,
};
use papermachine::server::schema::validate_schema_value;
use papermachine::server::sessions::{
    archive_step, cancelled_for_archive, check_answer, check_control_project,
    check_session_limit, check_session_project, control_content, create_session, ArchiveStep,
    CreateProjectSkillRequest, CreateSessionRequest, LoadedProgram,
};
use papermachine::server::startup::{
    recoverable_projects, reset_ephemeral_directory, runtime_paths, EphemeralPath, ResetStep,
    ServerConfig, ServerModelConfig,
};
use papermachine::server::workspace::{
    canonical_workspace, default_workspace_directory_name, ensure_project_can_detach,
    list_projects, project_name, workspace_attachment_available, workspace_path,
    ProjectCatalogEntry, SeenPath, WorkspaceSearch,
};

const UNIX: PathStyle = PathStyle::Unix;

fn json(text: &str) -> Json {
    Json::parse(text).expect("fixture should be JSON")
}

fn list(items: &[&str]) -> Vec<String> {
    items.iter().map(|item| item.to_string()).collect()
}

#[test]
fn normalization_returns_canonical_directories_and_preserves_cancel() {
    let found = |path: &str| Ok(FoundPath { canonical: path.to_string(), is_directory: true });
    assert_eq!(
        normalize_selection(Some("/tmp/chosen".to_string()), found("/private/tmp/chosen"))
            .expect("directory should normalize"),
        Some("/private/tmp/chosen".to_string())
    );
    assert_eq!(
        normalize_selection(None, found("/unused")).expect("cancel should be accepted"),
        None
    );
    assert_eq!(
        normalize_selection(Some("  ".to_string()), found("/unused"))
            .expect("empty output is cancel"),
        None
    );
}

#[test]
fn only_directories_can_be_chosen() {
    let file = Ok(FoundPath { canonical: "/f".to_string(), is_directory: false });
    assert_eq!(
        normalize_selection(Some("/f".to_string()), file),
        Err("Selected path is not a directory".to_string())
    );
    assert_eq!(
        normalize_selection(Some("/f".to_string()), Err("gone".to_string())),
        Err("Selected directory is unavailable: gone".to_string())
    );
    assert_eq!(selected_path(&Some(" /a ".to_string())), Some("/a".to_string()));
    assert_eq!(
        pick_directory(Err("no dialog".to_string()), Err("unused".to_string())),
        Err("no dialog".to_string())
    );
}

#[test]
fn dialogs_are_read_by_platform() {
    assert_eq!(dialog_selection(true, Some(0), b" /a\n".to_vec(), Vec::new()), Ok(Some("/a".to_string())));
    assert_eq!(dialog_selection(false, Some(1), Vec::new(), Vec::new()), Ok(None));
    assert_eq!(
        dialog_selection(false, Some(5), Vec::new(), b" broken \n".to_vec()),
        Err("The directory picker failed: broken".to_string())
    );
    assert_eq!(
        dialog_selection(false, None, Vec::new(), Vec::new()),
        Err("The directory picker failed".to_string())
    );
    assert_eq!(
        dialog_selection(true, Some(0), vec![0xff], Vec::new()),
        Err("The directory picker returned an invalid path".to_string())
    );
    assert_eq!(command_selection(true, b"  ".to_vec(), Vec::new()), Ok(None));
    assert_eq!(command_selection(true, b"/b".to_vec(), Vec::new()), Ok(Some("/b".to_string())));
    assert_eq!(
        command_selection(false, Vec::new(), vec![0x61, 0xff]),
        Err("The directory picker failed: a\u{fffd}".to_string())
    );
}

#[test]
fn a_second_dialog_is_tried_on_linux() {
    let first = picker_command(Platform::Linux, 0).expect("zenity");
    assert_eq!(first.program, "zenity");
    let missing = || PickerRun::Missing("not found".to_string());
    assert!(matches!(picker_step(Platform::Linux, 0, missing()), PickerStep::TryNext));
    assert_eq!(picker_command(Platform::Linux, 1).expect("kdialog").program, "kdialog");
    assert!(matches!(
        picker_step(Platform::Linux, 1, missing()),
        PickerStep::Picked(Err(message)) if message.starts_with("No native directory picker")
    ));
    assert!(matches!(
        picker_step(Platform::MacOs, 0, missing()),
        PickerStep::Picked(Err(message)) if message == "Could not open the directory picker: not found"
    ));
    assert!(picker_command(Platform::Other, 0).is_none());
    assert!(no_picker().contains("unavailable on this platform"));
}

#[test]
fn local_host_boundary_accepts_only_loopback_authorities() {
    assert_eq!(host_address("127.0.0.1:4310").as_deref(), Some("127.0.0.1"));
    assert!(is_loopback_authority("127.0.0.1:4310", true));
    assert_eq!(host_address("localhost:4310").as_deref(), Some("localhost"));
    assert!(is_loopback_authority("localhost:4310", false));
    assert_eq!(host_address("[::1]:4310").as_deref(), Some("::1"));
    assert!(is_loopback_authority("[::1]:4310", true));
    assert_eq!(host_address("example.com:4310").as_deref(), Some("example.com"));
    assert!(!is_loopback_authority("example.com:4310", false));
    assert_eq!(host_address("0.0.0.0:4310").as_deref(), Some("0.0.0.0"));
    assert!(!is_loopback_authority("0.0.0.0:4310", false));
}

#[test]
fn what_is_no_authority_does_not_pass() {
    assert!(!is_loopback_authority("", true));
    assert!(!is_loopback_authority("local host", true));
    assert!(!may_pass(None, true));
    assert!(may_pass(Some("LOCALHOST"), false));
    assert!(is_local_host("LocalHost", false));
    assert_eq!(address_of("[::1]"), "::1");
    assert_eq!(address_of("[::1"), "[::1");
}

#[test]
fn macos_uses_application_support() {
    assert_eq!(
        resolve_data_dir(UNIX, Platform::MacOs, Some("/Users/researcher"), None, None)
            .expect("macOS data directory should resolve"),
        "/Users/researcher/Library/Application Support/PaperMachine"
    );
}

#[test]
fn linux_prefers_xdg_and_falls_back_to_local_share() {
    assert_eq!(
        resolve_data_dir(UNIX, Platform::Linux, Some("/home/researcher"), Some("/data"), None)
            .expect("XDG data directory should resolve"),
        "/data/papermachine"
    );
    assert_eq!(
        resolve_data_dir(UNIX, Platform::Linux, Some("/home/researcher"), None, None)
            .expect("Linux fallback data directory should resolve"),
        "/home/researcher/.local/share/papermachine"
    );
}

#[test]
fn windows_uses_local_app_data() {
    assert_eq!(
        resolve_data_dir(
            UNIX,
            Platform::Windows,
            None,
            None,
            Some("C:/Users/researcher/AppData/Local"),
        )
        .expect("Windows data directory should resolve"),
        "C:/Users/researcher/AppData/Local/PaperMachine"
    );
}

#[test]
fn missing_variables_are_named() {
    assert_eq!(
        resolve_data_dir(UNIX, Platform::MacOs, None, None, None),
        Err("HOME is not set".to_string())
    );
    assert_eq!(
        resolve_data_dir(UNIX, Platform::Linux, None, None, None),
        Err("neither XDG_DATA_HOME nor HOME is set".to_string())
    );
    assert_eq!(
        resolve_data_dir(UNIX, Platform::Windows, None, None, None),
        Err("LOCALAPPDATA is not set".to_string())
    );
    assert_eq!(requested_data_dir(UNIX, None, true, Ok("/d".to_string())), Ok("/d/dev".to_string()));
    assert_eq!(
        requested_data_dir(UNIX, Some("/n".to_string()), true, Err("unused".to_string())),
        Ok("/n".to_string())
    );
    assert_eq!(config_path(UNIX, None, true, "/r", "/d"), "/r/papermachine.toml");
    assert_eq!(config_path(UNIX, None, false, "/r", "/d"), "/d/config.toml");
}

fn schema_fault(schema: &str, value: &str) -> Option<String> {
    validate_schema_value(&json(schema), &json(value), "params").err()
}

#[test]
fn values_are_held_against_schemas() {
    let schema = r#"{"type":"object","required":["topic"],"additionalProperties":false,"properties":{"topic":{"type":"string"},"tags":{"type":"array","items":{"type":"integer"}}}}"#;
    assert_eq!(schema_fault(schema, r#"{"topic":"language boundary"}"#), None);
    assert_eq!(schema_fault(schema, "{}").as_deref(), Some("params.topic is required"));
    assert_eq!(
        schema_fault(schema, r#"{"topic":"a","x":1}"#).as_deref(),
        Some("params.x is not an allowed field")
    );
    assert_eq!(
        schema_fault(schema, r#"{"topic":1}"#).as_deref(),
        Some("params.topic must be a string")
    );
    assert_eq!(
        schema_fault(schema, r#"{"topic":"a","tags":[1,"b"]}"#).as_deref(),
        Some("params.tags[1] must be an integer")
    );
    assert_eq!(schema_fault(schema, "[]").as_deref(), Some("params must be an object"));
    assert_eq!(schema_fault("{}", "17"), None);
    assert_eq!(schema_fault("true", "17"), None);
    assert_eq!(schema_fault(r#"{"type":"number"}"#, "1.5"), None);
    assert_eq!(
        schema_fault(r#"{"type":"integer"}"#, "1.5").as_deref(),
        Some("params must be an integer")
    );
    assert_eq!(
        schema_fault(r#"{"type":"boolean"}"#, "0").as_deref(),
        Some("params must be a boolean")
    );
    assert_eq!(schema_fault(r#"{"type":"null"}"#, "0").as_deref(), Some("params must be null"));
    assert_eq!(
        schema_fault(r#"{"type":"array"}"#, "0").as_deref(),
        Some("params must be an array")
    );
    assert_eq!(
        schema_fault(r#"{"enum":["a","b"]}"#, r#""c""#).as_deref(),
        Some("params is not one of the allowed values")
    );
    assert_eq!(schema_fault(r#"{"enum":["a","b"]}"#, r#""b""#), None);
}

#[test]
fn parameters_name_known_models() {
    let models = known_models("demo-model", &Vec::new());
    assert_eq!(models, list(&["demo-model"]));
    let schema = json(
        r#"{"properties":{"worker":{"format":"model-profile"},"others":{"items":{"format":"model-profile"}}}}"#,
    );
    let check = |value: &str| validate_model_profile_params(&models, &schema, &json(value));
    assert!(check(r#"{"worker":" demo-model "}"#).is_ok());
    assert!(check(r#"{"worker":"  "}"#).is_ok());
    let fault = check(r#"{"others":["demo-model","x"]}"#).expect_err("unknown");
    assert_eq!(fault.status, 400);
    assert_eq!(fault.message, "unknown model profile \"x\"; choose one of: demo-model");
    assert!(validate_model_profile(&models, "demo-model").is_ok());
}

fn program(mode: WorkflowRequestMode, params_schema: &str) -> LoadedProgram {
    LoadedProgram {
        snapshot: WorkflowProgramSnapshot {
            project_id: None,
            manifest: WorkflowProgramManifest {
                id: WorkflowProgramId(7),
                slug: "interactive-agent".to_string(),
                name: "Interactive agent".to_string(),
                description: String::new(),
                entrypoint: "run".to_string(),
                request_mode: mode,
                params_schema: json(params_schema),
            },
            source: WorkflowProgramSource::Builtin,
            definition_path: "builtin/interactive-agent".to_string(),
            sha256: "a".repeat(64),
            runtime_sha256: "b".repeat(64),
            source_code: String::new(),
        },
        agents: vec![WorkflowAgentDeclaration {
            class_name: "Researcher".to_string(),
            actions: Vec::new(),
            access: AccessPreset::ReadOnly,
        }],
    }
}

fn session_request() -> CreateSessionRequest {
    CreateSessionRequest {
        program_slug: "interactive-agent".to_string(),
        title: None,
        request: None,
        instructions: " be brief ".to_string(),
        params: json("{}"),
        source_session_id: None,
        model: "demo-model".to_string(),
        access: AccessPreset::Workspace,
        enabled_skills: Vec::new(),
        agent_access_overrides: Vec::new(),
    }
}

fn refused(request: CreateSessionRequest, program: Option<LoadedProgram>) -> ApiError {
    create_session(ProjectId(1), request, &list(&["demo-model"]), program)
        .err()
        .expect("the request should be refused")
}

#[test]
fn sessions_fit_their_programs() {
    let fault = refused(
        CreateSessionRequest { request: Some("not allowed".to_string()), ..session_request() },
        Some(program(WorkflowRequestMode::NoTask, "{}")),
    );
    assert_eq!(fault.status, 400);
    assert_eq!(
        fault.message,
        "WorkflowProgram \"interactive-agent\" starts without a user task"
    );
    let fault = refused(session_request(), Some(program(WorkflowRequestMode::Required, "{}")));
    assert_eq!(fault.status, 400);
    assert_eq!(fault.message, "WorkflowProgram \"interactive-agent\" requires a user task");
    let fault = refused(session_request(), None);
    assert_eq!(fault.status, 404);
    assert_eq!(fault.message, "WorkflowProgram interactive-agent not found");
    let fault = refused(CreateSessionRequest { model: " ".to_string(), ..session_request() }, None);
    assert_eq!(fault.message, "Session model must name an explicit model profile");
    let fault = refused(CreateSessionRequest { model: "x".to_string(), ..session_request() }, None);
    assert_eq!(fault.message, "unknown model profile \"x\"; choose one of: demo-model");
    let fault = refused(
        CreateSessionRequest {
            agent_access_overrides: vec![("Writer".to_string(), AccessPreset::ReadOnly)],
            ..session_request()
        },
        Some(program(WorkflowRequestMode::NoTask, "{}")),
    );
    assert_eq!(
        fault.message,
        "Agent access override references unknown class \"Writer\""
    );
    let fault = refused(
        session_request(),
        Some(program(WorkflowRequestMode::NoTask, r#"{"type":"object","required":["topic"]}"#)),
    );
    assert_eq!(fault.message, "params.topic is required");
}

#[test]
fn a_session_is_made_as_asked() {
    let session = create_session(
        ProjectId(1),
        CreateSessionRequest {
            title: Some("  ".to_string()),
            request: Some(" find it ".to_string()),
            source_session_id: Some(SessionId(9)),
            agent_access_overrides: vec![("Researcher".to_string(), AccessPreset::ModelOnly)],
            ..session_request()
        },
        &list(&["demo-model"]),
        Some(program(WorkflowRequestMode::Required, "{}")),
    )
    .expect("the Session should start");
    assert_eq!(session.title, "Interactive agent");
    assert_eq!(session.request, "find it");
    assert_eq!(session.instructions, "be brief");
    assert_eq!(session.default_model, "demo-model");
    assert_eq!(session.trigger.kind, SessionTriggerKind::User);
    assert_eq!(session.trigger.source_session_id, Some(SessionId(9)));
}

#[test]
fn requests_on_sessions_are_checked() {
    assert!(check_session_limit(1).is_ok());
    assert!(check_session_limit(200).is_ok());
    assert!(check_session_limit(0).is_err());
    assert_eq!(
        check_session_limit(201).err().map(|e| e.message),
        Some("Session list limit must be 1..=200".to_string())
    );
    let wrong = check_session_project(ProjectId(1), ProjectId(2), "s").expect_err("other Project");
    assert_eq!((wrong.status, wrong.message.as_str()), (404, "Session s not found"));
    assert_eq!(control_content(" go ").expect("content"), "go");
    assert_eq!(control_content(" ").expect_err("blank").message, "control message must not be empty");
    assert_eq!(
        check_control_project(ProjectId(1), ProjectId(2)).expect_err("other").detail,
        "Session belongs to another Project"
    );
    assert_eq!(
        check_answer(&json(r#"{"type":"boolean"}"#), &json("1")).expect_err("no").message,
        "answer must be a boolean"
    );
    assert_eq!(archive_step(true, SessionStatus::Running), ArchiveStep::Nothing);
    assert_eq!(archive_step(false, SessionStatus::Running), ArchiveStep::Cancel);
    assert_eq!(archive_step(false, SessionStatus::Completed), ArchiveStep::Archive);
    assert!(cancelled_for_archive(None));
    assert!(cancelled_for_archive(Some(SchedulerErrorKind::TerminalSession)));
    assert!(!cancelled_for_archive(Some(SchedulerErrorKind::Other)));
    let skill = CreateProjectSkillRequest {
        slug: " a ".to_string(),
        name: " b".to_string(),
        description: "c ".to_string(),
        instructions: "d".to_string(),
    };
    assert_eq!(skill.trimmed().slug, "a");
}

#[test]
fn errors_have_their_statuses() {
    let status = |error: ApiError| error.status;
    let m = || "m".to_string();
    assert_eq!(status(ApiError::from_store(StoreErrorKind::NotFound, m())), 404);
    assert_eq!(status(ApiError::from_store(StoreErrorKind::Invariant, m())), 409);
    assert_eq!(status(ApiError::from_store(StoreErrorKind::Other, m())), 500);
    let nested = SchedulerErrorKind::Store(StoreErrorKind::Invariant);
    assert_eq!(status(ApiError::from_scheduler(nested, m())), 500);
    assert_eq!(status(ApiError::from_scheduler(SchedulerErrorKind::NotScheduled, m())), 409);
    assert_eq!(status(ApiError::from_program(ProgramErrorKind::InvalidFile, m())), 400);
    assert_eq!(status(ApiError::from_program(ProgramErrorKind::Duplicate, m())), 409);
    assert_eq!(status(ApiError::from_turn(TurnErrorKind::TerminalTurn, m())), 409);
    assert_eq!(status(ApiError::from_skill(SkillErrorKind::Yaml, m())), 400);
    assert_eq!(status(ApiError::from_skill(SkillErrorKind::AlreadyExists, m())), 409);
    assert_eq!(ApiError::internal(m()).body().render(), r#"{"error":"m"}"#);
    let bad: Result<u8, ApiError> = parse_id(None, "zz", "Project");
    assert_eq!(bad.expect_err("no id").message, "invalid Project id: zz");
    assert_eq!(parse_id(Some(3), "3", "Project").expect("an id"), 3);
}

fn event(sequence: u64, session: u128, payload: SessionEventPayload) -> SessionEvent {
    SessionEvent {
        id: EventId(1),
        sequence,
        project_id: ProjectId(2),
        session_id: SessionId(session),
        agent_id: Some(AgentId(3)),
        turn_id: Some(TurnId(4)),
        step_id: Some(StepId(5)),
        occurred_at: Timestamp { seconds: 0, nanoseconds: 0 },
        payload,
    }
}

fn warning(sequence: u64, session: u128) -> SessionEvent {
    event(sequence, session, SessionEventPayload::Warning { message: "check".to_string() })
}

#[test]
fn events_have_stable_names() {
    assert_eq!(event_type(&warning(7, 1).payload), "warning");
    assert_eq!(event_type(&SessionEventPayload::AssistantMessageReset), "assistant_message_reset");
    assert_eq!(event_type(&SessionEventPayload::ModelStepFailed), "model_step_failed");
    assert_eq!(event_type(&SessionEventPayload::TurnCreated), "turn_created");
    assert_eq!(event_mark(7).as_deref(), Some("7"));
    assert_eq!(event_mark(0), None);
    assert_eq!(resync_update("session_resync").render(), r#"{"type":"session_resync"}"#);
}

#[test]
fn updates_carry_what_events_tell_of() {
    let parts = update_parts(&event(1, 9, SessionEventPayload::TurnCreated));
    assert_eq!(parts.turn, Some(TurnId(4)));
    assert_eq!((parts.session, parts.step, parts.agent), (None, None, None));
    let parts = update_parts(&event(
        1,
        9,
        SessionEventPayload::HumanRequestResolved { human_request_id: HumanRequestId(8) },
    ));
    assert_eq!(parts.human_request, Some(HumanRequestId(8)));
    assert_eq!(parts.session, Some(SessionId(9)));
    let parts = update_parts(&event(1, 9, SessionEventPayload::ToolCallStarted));
    assert_eq!(parts.step, Some(StepId(5)));
}

#[test]
fn followers_get_every_event_once() {
    let replay = vec![warning(3, 1), warning(5, 1)];
    let follower = SessionFollower::new(SessionId(1), 2, &replay);
    assert_eq!(follower.high_watermark, 5);
    assert_eq!(follower.live_step(Some(&warning(5, 1))), LiveStep::Skip);
    assert_eq!(follower.live_step(Some(&warning(6, 1))), LiveStep::Send);
    assert_eq!(follower.live_step(Some(&warning(0, 1))), LiveStep::Send);
    assert_eq!(follower.live_step(Some(&warning(6, 2))), LiveStep::Skip);
    assert_eq!(follower.live_step(None), LiveStep::Resync);
    assert_eq!(SessionFollower::new(SessionId(1), 2, &Vec::new()).high_watermark, 2);
    assert_eq!(project_step(None), ProjectStep::Resync);
    assert_eq!(project_step(Some(&warning(1, 1))), ProjectStep::Skip);
    let changed = SessionEventPayload::SessionChanged {
        status: SessionStatus::Running,
        reason: None,
    };
    assert_eq!(project_step(Some(&event(1, 4, changed))), ProjectStep::Load(SessionId(4)));
    assert!(is_of_project(Some(ProjectId(1)), ProjectId(1)));
    assert!(!is_of_project(None, ProjectId(1)));
}

#[test]
fn pages_are_sent_without_rights() {
    let names = |media: &str| {
        artifact_headers(media).into_iter().map(|(name, _)| name).collect::<Vec<_>>()
    };
    assert!(names("text/html; charset=utf-8").contains(&"content-security-policy".to_string()));
    assert!(!names("text/plain").contains(&"content-security-policy".to_string()));
    let headers = artifact_headers("bad\ntype");
    assert_eq!(headers[0], ("content-type".to_string(), "application/octet-stream".to_string()));
    assert_eq!(headers[1], ("x-content-type-options".to_string(), "nosniff".to_string()));
}

#[test]
fn directories_have_plain_names() {
    assert_eq!(default_workspace_directory_name("  My <great>: plan?  "), "My -great- plan");
    assert_eq!(default_workspace_directory_name("a//b"), "a-b");
    assert_eq!(default_workspace_directory_name("..."), "Project");
    assert_eq!(default_workspace_directory_name("///"), "Project");
    assert_eq!(default_workspace_directory_name(&"x".repeat(100)), "x".repeat(80));
}

#[test]
fn a_free_directory_is_searched() {
    let mut search = WorkspaceSearch::new();
    let attached = list(&["/root/Plan 2/"]);
    let first = search.candidate(UNIX, "/root", "Plan");
    assert_eq!(first, "/root/Plan");
    assert!(!search.settle(UNIX, &first, true, &attached));
    let second = search.candidate(UNIX, "/root", "Plan");
    assert_eq!(second, "/root/Plan 2");
    assert!(!search.settle(UNIX, &second, false, &attached));
    let third = search.candidate(UNIX, "/root", "Plan");
    assert_eq!(third, "/root/Plan 3");
    assert!(search.settle(UNIX, &third, false, &attached));
}

#[test]
fn workspaces_are_checked() {
    assert_eq!(project_name(" P ").expect("name"), "P");
    assert_eq!(project_name(" ").expect_err("blank").message, "Project name must not be empty");
    assert_eq!(workspace_path(UNIX, " /w ").expect("absolute"), "/w");
    assert_eq!(
        workspace_path(UNIX, "w").expect_err("relative").message,
        "Project Workspace path must be absolute"
    );
    assert_eq!(
        canonical_workspace(Err("gone".to_string())).expect_err("gone").message,
        "Project Workspace is unavailable: gone"
    );
    assert!(ensure_project_can_detach(0).is_ok());
    assert!(ensure_project_can_detach(1).expect_err("busy").detail.starts_with("Project has active work"));
    let workspace = WorkspaceAttachment::single(WorkspaceId(1), "/w".to_string());
    let seen = |directory: bool, link: bool, canonical: &str| {
        Some(SeenPath {
            is_directory: directory,
            is_symlink: link,
            canonical: Some(canonical.to_string()),
        })
    };
    assert!(workspace_attachment_available(UNIX, &workspace, &seen(true, false, "/w")));
    assert!(!workspace_attachment_available(UNIX, &workspace, &seen(true, true, "/w")));
    assert!(!workspace_attachment_available(UNIX, &workspace, &seen(true, false, "/elsewhere")));
    assert!(!workspace_attachment_available(UNIX, &workspace, &None));
}

fn entry(id: u128, seconds: i64) -> ProjectCatalogEntry {
    let at = Timestamp { seconds, nanoseconds: 0 };
    ProjectCatalogEntry {
        project: Project {
            id: ProjectId(id),
            name: "p".to_string(),
            workspace: WorkspaceAttachment::single(WorkspaceId(id), "/w".to_string()),
            created_at: at,
            updated_at: at,
        },
        workspace_available: true,
    }
}

#[test]
fn the_latest_project_is_listed_first() {
    let listed = list_projects(vec![entry(3, 5), entry(1, 9), entry(2, 5)]);
    let ids: Vec<u128> = listed.iter().map(|entry| entry.project.id.0).collect();
    assert_eq!(ids, vec![1, 2, 3]);
}

#[test]
fn a_project_that_cannot_be_built_is_taken_back() {
    let mut creation = ProjectCreation::new();
    assert!(matches!(creation.advance(CreationEvent::Catalogued(None)), CreationStep::Build));
    let broken = Some("no runtime".to_string());
    assert!(matches!(creation.advance(CreationEvent::Built(broken)), CreationStep::Close));
    assert!(matches!(creation.advance(CreationEvent::Closed(None)), CreationStep::Retire));
    let end = creation.advance(CreationEvent::Retired(Ok("/trash/1".to_string())));
    assert!(matches!(end, CreationStep::Refuse { cleanup: Some(place), error }
        if place == "/trash/1" && error.status == 500 && error.message == "no runtime"));
    let mut creation = ProjectCreation::new();
    creation.advance(CreationEvent::Catalogued(None));
    assert!(matches!(creation.advance(CreationEvent::Built(None)), CreationStep::Register));
}

#[test]
fn a_project_that_cannot_be_retired_comes_back() {
    let mut removal = ProjectRemoval::new();
    assert!(matches!(removal.advance(RemovalEvent::Checked(None)), RemovalStep::ForgetAndClose));
    assert!(matches!(removal.advance(RemovalEvent::Closed(None)), RemovalStep::Retire));
    let fault = ApiError::internal("stuck".to_string());
    assert!(matches!(removal.advance(RemovalEvent::Retired(Err(fault))), RemovalStep::Reopen));
    assert!(matches!(removal.advance(RemovalEvent::Reopened(None)),
        RemovalStep::RestoreAndRefuse(error) if error.message == "stuck"));
}

fn config(root: &str) -> ServerConfig {
    ServerConfig {
        resource_root: "/r".to_string(),
        data_dir: "/d".to_string(),
        default_workspace_root: root.to_string(),
        models: ServerModelConfig::Demo,
        max_concurrent_runs: 3,
        max_parallel_actions: 4,
    }
}

#[test]
fn initialization_checks_its_resources() {
    assert_eq!(
        config("w").check(UNIX, true),
        Err("PaperMachine default Workspace root must be absolute".to_string())
    );
    assert_eq!(
        config("/w").check(UNIX, false),
        Err("PaperMachine built-in WorkflowProgram directory is missing: /r/workflows/builtin".to_string())
    );
    assert_eq!(config("/w").check(UNIX, true), Ok(()));
    assert_eq!(config("/w").turn_permits(), 12);
    assert_eq!(config("/w").session_permits(), 3);
    let none = ServerConfig { max_concurrent_runs: 0, ..config("/w") };
    assert_eq!((none.turn_permits(), none.session_permits()), (1, 1));
    let huge = ServerConfig { max_concurrent_runs: usize::MAX, ..config("/w") };
    assert_eq!(huge.turn_permits(), usize::MAX);
    let models = ServerModelConfig::Demo.describe().expect("demo");
    assert_eq!((models.default_model.as_str(), models.mode), ("demo-model", "demo"));
    assert_eq!(models.model_context_window, 128_000);
    assert_eq!(reset_ephemeral_directory("/x", EphemeralPath::Missing), ResetStep::Create);
    assert_eq!(
        reset_ephemeral_directory("/x", EphemeralPath::Other),
        ResetStep::Refuse("runtime path is not a real directory: /x".to_string())
    );
}

fn demo_request(instructions: &str, format: Option<&str>, prompt: &str) -> ModelRequest {
    ModelRequest {
        model: "demo-model".to_string(),
        reasoning_effort: None,
        instructions: instructions.to_string(),
        input: vec![ModelInputItem::Message {
            role: MessageRole::User,
            content: prompt.to_string(),
        }],
        prompt_cache: None,
        transport_session_key: None,
        tools: Vec::new(),
        hosted_tools: Vec::new(),
        web_search_context_size: None,
        parallel_tool_calls: false,
        tool_choice: ModelToolChoice::Auto,
        response_format: format.map(|name| ModelResponseFormat {
            name: name.to_string(),
            schema: json("{}"),
            strict: false,
        }),
    }
}

fn demo_text(request: &ModelRequest) -> String {
    match &DemoModelClient.stream(request)[0] {
        ModelEvent::OutputTextDelta { delta } => delta.clone(),
        other => panic!("an answer begins with its text, not {other:?}"),
    }
}

#[test]
fn demo_answers_fit_their_requests() {
    assert_eq!(
        demo_structured_response("work_result"),
        r#"{"message":"Demo mode completed and verified the requested runtime exercise.","status":"complete"}"#
    );
    assert_eq!(demo_structured_response("unknown"), "{}");
    let answer = demo_text(&demo_request("Answer.", None, " First line \nsecond"));
    assert!(answer.starts_with("Demo result for **First line**"));
    let answer = demo_text(&demo_request("Answer.", Some("review_draft_result"), "x"));
    assert!(answer.contains("\"complete\":true"));
    let home = demo_text(&demo_request("Maintain the Project home", None, "x"));
    assert!(home.starts_with("<!DOCTYPE html>"));
    let prompt = "Create\n\nRequested name: My flow\nRequested slug: derive lowercase kebab-case";
    let source =
        demo_text(&demo_request("PaperMachine Workflow Language v1", None, prompt));
    assert!(source.contains("\nagent Assessor {"));
    assert!(source.contains("name = \"My flow\";"));
    assert!(source.contains("slug = \"generated-evidence-review\";"));
}

#[test]
fn unfinished_work_is_taken_up_again() {
    let inspected = vec![
        (ProjectId(3), Some(1)),
        (ProjectId(1), Some(0)),
        (ProjectId(4), None),
        (ProjectId(2), Some(7)),
    ];
    assert_eq!(recoverable_projects(&inspected), vec![ProjectId(3), ProjectId(2)]);
}

#[test]
fn runtime_directories_lie_in_the_managed_root() {
    let paths = runtime_paths(UNIX, "/data/projects/p");
    assert_eq!(paths.workflow_runtime, "/data/projects/p/workflow-runtime");
    assert_eq!(paths.sandboxes, "/data/projects/p/runtime/sandboxes");
}
