//! Workflow programs: written, kept and run.

use papermachine::json::Json;
use papermachine::path::PathStyle;
use papermachine::protocol::ids::{Timestamp, WorkflowId, WorkflowRunId};
use papermachine::protocol::model::{ModelEvent, TokenUsage};
use papermachine::protocol::research::{Budget, WorkflowRunStatus};
use papermachine::research::catalog::{
    failed_validator, find_python, is_workflow_file, missing_validator, named_python, scan,
    validator_path, InterpreterFacts, LoadedWorkflow, SavePlan, SourceValidation, WorkflowCatalog,
    WorkflowCatalogError, WorkflowManifest, WorkflowSource,
};
use papermachine::research::generator::{
    strip_code_fence, GenerationStream, WorkflowGenerationRequest, WorkflowGenerator,
    WorkflowGeneratorError,
};
use papermachine::research::scheduler::{
    count_seconds, interrupted_reason, LoadedRun, RunEvent, RunStep, ScheduledRun,
    WorkflowRunScheduler, WorkflowSchedulerError,
};
use papermachine::server::demo::DemoModelClient;

const UNIX: PathStyle = PathStyle::Unix;

fn json(text: &str) -> Json {
    Json::parse(text).expect("fixture should be JSON")
}

fn now() -> Timestamp {
    Timestamp { seconds: 1, nanoseconds: 0 }
}

fn manifest(slug: &str, version: &str) -> WorkflowManifest {
    WorkflowManifest {
        id: WorkflowId(1),
        slug: slug.to_string(),
        name: "Scheduler test".to_string(),
        version: version.to_string(),
        description: String::new(),
        entrypoint: "main".to_string(),
        input_schema: json(r#"{"type":"object"}"#),
        output_schema: json(r#"{"type":"object"}"#),
        default_budget: Budget::default(),
    }
}

fn valid(slug: &str, version: &str) -> SourceValidation {
    SourceValidation {
        valid: true,
        manifest: Some(manifest(slug, version)),
        findings: String::new(),
    }
}

fn catalog() -> WorkflowCatalog {
    WorkflowCatalog::new(UNIX, "/w".to_string(), "/py".to_string(), "/usr/bin/python3".to_string())
}

fn load(path: &str, source: &str, slug: &str) -> Result<LoadedWorkflow, WorkflowCatalogError> {
    catalog().load_file(path, source.to_string(), valid(slug, "0.1.0"), now())
}

#[test]
fn commits_output_only_after_final_usage_is_recorded() {
    let mut run = ScheduledRun::new();
    assert!(matches!(run.advance(RunEvent::Permitted(None)), RunStep::Load));
    let loaded = LoadedRun {
        status: WorkflowRunStatus::Created,
        max_wall_time_seconds: Some(14_400),
        wall_time_seconds: 0,
    };
    let step = run.advance(RunEvent::Loaded(Ok(loaded)));
    assert!(matches!(step, RunStep::SetStatus(change) if change.status == WorkflowRunStatus::Running));
    let step = run.advance(RunEvent::StatusSet(None));
    assert!(matches!(step, RunStep::Execute { seconds: Some(14_400) }));
    let step = run.advance(RunEvent::Executed {
        result: Ok(json(r#"{"report":"done"}"#)),
        elapsed: 1_000,
    });
    assert!(matches!(step, RunStep::AddUsage { wall_time_seconds: 1 }));
    assert!(matches!(run.advance(RunEvent::UsageAdded(None)), RunStep::Reload));
    let step = run.advance(RunEvent::Reloaded {
        status: Ok(WorkflowRunStatus::Running),
        cancelled: false,
    });
    assert!(matches!(step, RunStep::Complete { output } if output == json(r#"{"report":"done"}"#)));
    let step = run.advance(RunEvent::Stored(None));
    assert!(matches!(step, RunStep::Finish(Ok(output)) if output == json(r#"{"report":"done"}"#)));
}

#[test]
fn an_exhausted_run_is_not_executed() {
    let mut run = ScheduledRun::new();
    run.advance(RunEvent::Permitted(None));
    let loaded = LoadedRun {
        status: WorkflowRunStatus::Running,
        max_wall_time_seconds: Some(10),
        wall_time_seconds: 12,
    };
    assert!(matches!(run.advance(RunEvent::Loaded(Ok(loaded))), RunStep::Measure));
    let step = run.advance(RunEvent::Measured { elapsed: 7 });
    assert!(matches!(step, RunStep::AddUsage { wall_time_seconds: 1 }));
    run.advance(RunEvent::UsageAdded(None));
    let step = run.advance(RunEvent::Reloaded {
        status: Ok(WorkflowRunStatus::Running),
        cancelled: false,
    });
    let told = "wall-time budget exhausted: used 12 of 10 seconds";
    assert!(matches!(step, RunStep::SetStatus(change)
        if change.status == WorkflowRunStatus::Failed && change.reason.as_deref() == Some(told)));
    assert!(matches!(run.advance(RunEvent::Stored(None)), RunStep::Finish(Err(e)) if e == told));
}

#[test]
fn runs_out_of_time_and_cancelled_runs_end() {
    let mut run = ScheduledRun::new();
    let step = run.advance(RunEvent::CancelledEarly);
    assert!(matches!(step, RunStep::Finish(Err(e)) if e == "cancelled before execution started"));

    let mut run = ScheduledRun::new();
    run.advance(RunEvent::Permitted(None));
    run.advance(RunEvent::Loaded(Ok(LoadedRun {
        status: WorkflowRunStatus::Running,
        max_wall_time_seconds: Some(10),
        wall_time_seconds: 4,
    })));
    let step = run.advance(RunEvent::TimedOut { elapsed: 6_500_000_000 });
    assert!(matches!(step, RunStep::AddUsage { wall_time_seconds: 6 }));
    run.advance(RunEvent::UsageAdded(None));
    let step = run.advance(RunEvent::Reloaded {
        status: Ok(WorkflowRunStatus::Running),
        cancelled: true,
    });
    assert!(matches!(step, RunStep::SetStatus(change)
        if change.status == WorkflowRunStatus::Cancelled));
    let step = run.advance(RunEvent::Stored(None));
    assert!(matches!(step, RunStep::Finish(Err(e))
        if e == "wall-time budget exceeded after 10 seconds"));
    assert_eq!(count_seconds(0), 0);
    assert_eq!(count_seconds(999_999_999), 1);
    assert_eq!(count_seconds(2_000_000_000), 2);
}

#[test]
fn created_runs_are_recovered_once() {
    let mut scheduler = WorkflowRunScheduler::new();
    let created = WorkflowRunStatus::Created;
    let runs = vec![(WorkflowRunId(1), created), (WorkflowRunId(2), created), (WorkflowRunId(1), created)];
    let started = scheduler.recover(&runs).expect("created runs should start");
    assert_eq!(started, vec![WorkflowRunId(1), WorkflowRunId(2)]);
    assert_eq!(scheduler.start(WorkflowRunId(1), created), Ok(false));
    assert!(scheduler.wait(WorkflowRunId(2)).is_ok());
    assert_eq!(
        scheduler.wait(WorkflowRunId(3)),
        Err(WorkflowSchedulerError::NotScheduled(WorkflowRunId(3)))
    );
    assert!(interrupted_reason().contains("durable Python effect replay"));
}

#[test]
fn ended_runs_are_not_steered() {
    let mut scheduler = WorkflowRunScheduler::new();
    let run = WorkflowRunId(1);
    let error = scheduler.start(run, WorkflowRunStatus::Failed).expect_err("ended");
    assert_eq!(error.message("r1"), "WorkflowRun r1 is terminal with status Failed");
    assert!(scheduler.pause(run, WorkflowRunStatus::Completed).is_err());
    let paused = scheduler.pause(run, WorkflowRunStatus::Running).expect("running");
    assert_eq!(paused.reason.as_deref(), Some("paused by user"));
    let resumed = scheduler.resume(run, WorkflowRunStatus::Paused).expect("paused");
    assert_eq!((resumed.status, resumed.reason), (WorkflowRunStatus::Running, None));
    let (change, stop) = scheduler.cancel(run, WorkflowRunStatus::Running).expect("running");
    assert_eq!(change.status, WorkflowRunStatus::Cancelled);
    assert!(!stop);
    assert_eq!(
        WorkflowSchedulerError::NotScheduled(run).message("r1"),
        "WorkflowRun r1 is not scheduled in this process"
    );
    assert_eq!(
        WorkflowSchedulerError::OutcomeChannelClosed(run).message("r1"),
        "outcome channel for WorkflowRun r1 closed unexpectedly"
    );
}

#[test]
fn programs_are_found_by_slug_and_version() {
    let found = vec![
        load("/w/user/b/0.1.0/workflow.pm", "b", "b").expect("b"),
        load("/w/builtin/a/workflow.pm", "a", "a").expect("a"),
    ];
    let known = scan(catalog(), found).expect("programs");
    let slugs: Vec<&str> =
        known.list().iter().map(|p| p.registration.manifest.slug.as_str()).collect();
    assert_eq!(slugs, vec!["a", "b"]);
    let a = known.get("a", "0.1.0").expect("a");
    assert_eq!(a.registration.source, WorkflowSource::Builtin);
    assert_eq!(a.registration.definition_path, "builtin/a/workflow.pm");
    assert!(known.get("a", "0.2.0").is_none());
    let twice = vec![
        load("/w/builtin/a/workflow.pm", "a", "a").expect("a"),
        load("/w/user/a/workflow.pm", "b", "a").expect("a"),
    ];
    let error = scan(catalog(), twice).err().expect("duplicate");
    assert_eq!(error.message(), "duplicate workflow a@0.1.0");
    let both = vec![
        load("/w/builtin/a/workflow.pm", "a", "a").expect("a"),
        load("/w/builtin/b/workflow.pm", "b", "b").expect("b"),
        load("/w/user/b/workflow.pm", "b", "b").expect("b"),
        load("/w/user/a/workflow.pm", "a", "a").expect("a"),
    ];
    let error = scan(catalog(), both).err().expect("duplicates");
    assert_eq!(error.message(), "duplicate workflow b@0.1.0");
}

#[test]
fn a_program_keeps_the_path_below_the_root() {
    for (path, below) in [
        ("/w/user/a/0.1.0/workflow.pm", "user/a/0.1.0/workflow.pm"),
        ("/w//user//a/./workflow.pm", "user//a/./workflow.pm"),
        ("/./w/user/a/workflow.pm", "user/a/workflow.pm"),
    ] {
        let entry = load(path, "a", "a").expect("a program");
        assert_eq!(entry.registration.definition_path, below);
    }
}

#[test]
fn files_that_hold_no_program_are_refused() {
    let invalid = SourceValidation { valid: false, manifest: None, findings: "bad".to_string() };
    let error = catalog()
        .load_file("/w/user/a/workflow.pm", String::new(), invalid, now())
        .expect_err("invalid");
    assert_eq!(error.message(), "invalid workflow file /w/user/a/workflow.pm: bad");
    let silent = SourceValidation { valid: true, manifest: None, findings: String::new() };
    let error = catalog()
        .load_file("/w/user/a/workflow.pm", String::new(), silent, now())
        .expect_err("no manifest");
    assert_eq!(
        error.message(),
        "workflow validator failed: valid source did not return a manifest"
    );
    assert_eq!(
        load("/w/other/workflow.pm", "", "a").expect_err("owner").message(),
        "workflow must live under builtin/ or user/, found other"
    );
    assert_eq!(
        load("/x/workflow.pm", "", "a").expect_err("outside").message(),
        "workflow path is invalid: prefix not found"
    );
    assert!(is_workflow_file("workflow.pm"));
    assert!(!is_workflow_file("workflow.pmc"));
}

#[test]
fn published_programs_stay() {
    let known = scan(catalog(), vec![load("/w/user/a/0.1.0/workflow.pm", "one", "a").expect("a")])
        .expect("catalog");
    assert!(matches!(
        known.save_user("one", valid("a", "0.1.0"), now()),
        Ok(SavePlan::Existing(0))
    ));
    let error = known.save_user("two", valid("a", "0.1.0"), now()).err().expect("immutable");
    assert_eq!(error.message(), "workflow a@0.1.0 is immutable; publish a new version");
    match known.save_user("two", valid("a", "0.2.0"), now()) {
        Ok(SavePlan::Write { path, entry: Ok(entry) }) => {
            assert_eq!(path, "/w/user/a/0.2.0/workflow.pm");
            assert_eq!(entry.registration.definition_path, "user/a/0.2.0/workflow.pm");
            assert_eq!(entry.registration.sha256.len(), 64);
        }
        other => panic!("a new version should be written, not {other:?}"),
    }
    let invalid = SourceValidation { valid: false, manifest: None, findings: String::new() };
    let error = known.save_user("x", invalid, now()).err().expect("invalid");
    assert_eq!(error.message(), "invalid workflow source");
}

#[test]
fn an_interpreter_is_found() {
    let facts = |usable: bool| InterpreterFacts {
        is_file: true,
        success: true,
        stdout: if usable { b"True\n".to_vec() } else { b"False\n".to_vec() },
    };
    assert_eq!(
        find_python(&vec![facts(false), facts(true), facts(true)]).expect("found"),
        "/usr/local/bin/python3"
    );
    assert_eq!(
        find_python(&vec![facts(false), facts(false), facts(false)]).expect_err("none").message(),
        "Python runtime unavailable: Python 3.11 or newer was not found"
    );
    assert!(named_python("/p".to_string(), true).is_ok());
    assert_eq!(
        named_python("/p".to_string(), false).expect_err("none").message(),
        "Python runtime unavailable: /p"
    );
    assert_eq!(validator_path(UNIX, "/py"), "/py/papermachine/_validate.py");
    assert_eq!(
        missing_validator("/v").message(),
        "workflow validator failed: validator is missing: /v"
    );
    assert_eq!(
        failed_validator(&b" boom \n".to_vec()).message(),
        "workflow validator failed: boom"
    );
}

fn generation(description: &str) -> WorkflowGenerationRequest {
    WorkflowGenerationRequest {
        description: description.to_string(),
        name: None,
        slug: Some("my-flow".to_string()),
        model: None,
    }
}

#[test]
fn a_model_is_asked_for_a_program() {
    let generator = WorkflowGenerator::new("default".to_string());
    let request = generator.generate(&generation("  compare papers ")).expect("described");
    assert_eq!(request.model, "default");
    assert!(request.instructions.starts_with(
        "You design PaperMachine Workflow Language v1 programs. Return only executable workflow.pm source"
    ));
    let prompt = format!("{:?}", request.input);
    assert!(prompt.contains("Create a workflow for this request:\\ncompare papers\\n\\nRequested name: choose a concise name\\nRequested slug: my-flow"));
    for refused in ["  ".to_string(), "x".repeat(12_001)] {
        let error = generator.generate(&generation(&refused)).expect_err("not described");
        assert_eq!(
            error.message(),
            "invalid workflow generation request: workflow description must contain 1-12000 characters"
        );
    }
    assert!(generator.generate(&generation(&"x".repeat(12_000))).is_ok());
}

#[test]
fn the_demo_model_writes_what_is_asked_for() {
    let generator = WorkflowGenerator::new("demo-model".to_string());
    let written = |request: &WorkflowGenerationRequest| {
        let request = generator.generate(request).expect("described");
        let mut stream = GenerationStream::new();
        for event in DemoModelClient.stream(&request) {
            stream.take_in(&event);
        }
        stream.finish().expect("a whole program")
    };
    let source = written(&generation("compare papers"));
    assert!(source.starts_with("version 1;\n\nagent EvidenceResearcher {"));
    assert!(source.contains("\nagent Assessor {"));
    assert!(source.contains("slug = \"my-flow\";"));
    assert!(source.contains("name = \"Generated evidence review\";"));
    let mut named = generation("compare papers");
    named.name = Some("Two views".to_string());
    named.slug = None;
    let source = written(&named);
    assert!(source.contains("slug = \"generated-evidence-review\";"));
    assert!(source.contains("name = \"Two views\";"));
}

#[test]
fn sources_are_taken_out_of_fences() {
    assert_eq!(strip_code_fence(" x = 1 "), "x = 1\n");
    assert_eq!(strip_code_fence("```python\na\nb\n```"), "a\nb\n");
    assert_eq!(strip_code_fence("```\na"), "a\n");
    assert_eq!(strip_code_fence("```"), "\n");
}

#[test]
fn only_whole_programs_are_returned() {
    let mut stream = GenerationStream::new();
    let item = json(r#"{"content":[{"text":"from item"}]}"#);
    stream.take_in(&ModelEvent::ResponseItemCompleted { item });
    assert!(matches!(stream.finish(), Err(WorkflowGeneratorError::Incomplete)));
    stream.take_in(&ModelEvent::Completed { usage: TokenUsage::default() });
    assert_eq!(stream.finish().expect("whole"), "from item\n");
    let mut stream = GenerationStream::new();
    stream.take_in(&ModelEvent::OutputTextDelta { delta: "a".to_string() });
    let item = json(r#"{"content":[{"text":"repeated"}]}"#);
    stream.take_in(&ModelEvent::ResponseItemCompleted { item });
    stream.take_in(&ModelEvent::OutputTextDelta { delta: "b".to_string() });
    stream.take_in(&ModelEvent::Completed { usage: TokenUsage::default() });
    assert_eq!(stream.finish().expect("whole"), "ab\n");
    assert_eq!(
        WorkflowGeneratorError::Cancelled.message(),
        "workflow generation was cancelled"
    );
}

#[test]
fn a_snapshot_keeps_the_program() {
    let mut budget = Budget::default();
    budget.max_cost_usd = match json("1.5") {
        Json::Decimal(cost) => Some(cost),
        _ => None,
    };
    assert!(budget.max_cost_usd.is_some());
    let mut validation = valid("alpha", "0.1.0");
    let mut said = manifest("alpha", "0.1.0");
    said.default_budget = budget;
    validation.manifest = Some(said);
    let loaded = catalog()
        .load_file("/w/user/alpha/0.1.0/workflow.pm", "main()".to_string(), validation, now())
        .expect("the program should load");
    let snapshot = loaded.snapshot();
    assert_eq!(snapshot.manifest, loaded.registration.manifest);
    assert_eq!(snapshot.source, WorkflowSource::User);
    assert_eq!(snapshot.definition_path, "user/alpha/0.1.0/workflow.pm");
    assert_eq!(snapshot.sha256, loaded.registration.sha256);
    assert_eq!(snapshot.source_code, "main()");
}

#[test]
fn a_catalog_knows_its_interpreter() {
    let catalog = catalog();
    assert_eq!(catalog.python(), "/usr/bin/python3");
    assert_eq!(catalog.python_runtime_root(), "/py");
}
