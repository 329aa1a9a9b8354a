//! What Turns and child processes may touch.

use papermachine::digest::{sha256_hex, sha256_hex_of_text};
use papermachine::execution::environment::child_environment;
use papermachine::execution::error::ExecutionError;
use papermachine::execution::linux::{
    find_bwrap, is_wsl1, write_bwrap_arguments, HostPaths, SearchDirectory,
};
use papermachine::execution::macos::{seatbelt_literal, seatbelt_profile, sensitive_path_regex};
use papermachine::execution::output::LimitedOutput;
use papermachine::execution::policy::{FilesystemPolicy, NetworkPolicy, SandboxPolicy};
use papermachine::execution::request::{sandbox_directories, SandboxRequest};
use papermachine::execution::resolve::{
    ancestors, deduplicate_paths, find_place, resolve_path, ResolvedPaths, ResolvedSandboxPolicy,
    SandboxManager,
};
use papermachine::execution::scan::{DirectoryEntry, EntryStep, SensitiveScan};
use papermachine::execution::shell::{
    shell_program, Platform, SandboxBackend, SandboxExecutor, ShellCommand,
};
use papermachine::execution::windows::choose_backend;
use papermachine::json::Json;
use papermachine::path::{normalize_absolute, path_join, path_text, PathStyle};
use papermachine::protocol::ids::WorkspaceId;
use papermachine::protocol::model::{
    ModelRouteCapabilities, ModelRouteSnapshot, TokenUsage, ToolDefinition,
};
use papermachine::protocol::permissions::{
    AccessPreset, AuthorizationContext, EnvironmentAuthorization, PathAuthorizationFailure,
    PathOperation, TurnEnvironmentSnapshot,
};
use papermachine::protocol::project::{WorkspaceAttachment, WorkspaceSelection};
use papermachine::protocol::tool_set::ToolSetSnapshot;
use papermachine::text::{sort_texts, split_lines, to_lower, trim};

const UNIX: PathStyle = PathStyle::Unix;

fn list(items: &[&str]) -> Vec<String> {
    items.iter().map(|item| item.to_string()).collect()
}

fn variable(name: &str, value: &str) -> (String, String) {
    (name.to_string(), value.to_string())
}

fn lookup<'a>(environment: &'a [(String, String)], name: &str) -> Option<&'a str> {
    environment.iter().find(|(key, _)| key == name).map(|(_, value)| value.as_str())
}

#[test]
fn explicit_secret_override_is_rejected() {
    let policy = EnvironmentAuthorization {
        inherit_core: false,
        deny_name_fragments: list(&["TOKEN", "KEY"]),
    };
    let environment = child_environment(
        Platform::Linux,
        &policy,
        &Vec::new(),
        "/sandbox",
        "/sandbox",
        &vec![variable("API_TOKEN", "secret"), variable("SAFE", "yes")],
    );
    assert_eq!(lookup(&environment, "API_TOKEN"), None);
    assert_eq!(lookup(&environment, "SAFE"), Some("yes"));
}

#[test]
fn inherited_environment_is_core_only_and_secret_free() {
    let policy = EnvironmentAuthorization {
        inherit_core: true,
        deny_name_fragments: list(&["KEY", "SECRET", "TOKEN"]),
    };
    let host = vec![
        variable("PATH", "/usr/bin:/bin"),
        variable("API_KEY", "a"),
        variable("my_secret", "b"),
        variable("GITHUB_TOKEN", "c"),
        variable("EDITOR", "vi"),
    ];
    let environment =
        child_environment(Platform::Linux, &policy, &host, "/sandbox", "/sandbox", &Vec::new());
    assert!(environment.iter().all(|(key, _)| {
        let key = key.to_ascii_uppercase();
        !key.contains("KEY") && !key.contains("SECRET") && !key.contains("TOKEN")
    }));
    assert_eq!(lookup(&environment, "PATH"), Some("/usr/bin:/bin"));
    assert_eq!(lookup(&environment, "EDITOR"), None);
    assert_eq!(lookup(&environment, "HOME"), Some("/sandbox"));
}

#[test]
fn variables_have_a_source() {
    let policy = EnvironmentAuthorization {
        inherit_core: true,
        deny_name_fragments: list(&["KEY"]),
    };
    let host = vec![variable("Path", "p"), variable("TMP", "t"), variable("EDITOR", "vi")];
    let asked = vec![variable("EXTRA", "x"), variable("lang", "de"), variable("A_KEY", "k")];
    let mut environment =
        child_environment(Platform::Windows, &policy, &host, "/home", "/tmp", &asked);
    environment.sort();
    assert_eq!(
        environment,
        vec![
            variable("EXTRA", "x"),
            variable("HOME", "/home"),
            variable("Path", "p"),
            variable("TEMP", "/tmp"),
            variable("TMP", "/tmp"),
            variable("TMPDIR", "/tmp"),
            variable("USERPROFILE", "/home"),
            variable("lang", "de"),
        ]
    );
}

fn resolved_policy() -> ResolvedSandboxPolicy {
    ResolvedSandboxPolicy {
        filesystem_read: FilesystemPolicy::Scoped,
        filesystem_write: FilesystemPolicy::Scoped,
        read_roots: list(&["/workspace"]),
        write_roots: list(&["/workspace"]),
        unreadable_roots: list(&["/managed"]),
        read_only_roots: list(&["/workspace/.git"]),
        sensitive_paths: list(&["/workspace/.env"]),
        sensitive_path_names: list(&[".env", ".npmrc"]),
        network: NetworkPolicy::Deny,
        environment: EnvironmentAuthorization {
            inherit_core: true,
            deny_name_fragments: Vec::new(),
        },
        requires_platform_sandbox: true,
        platform_state_root: "/managed/runtime/windows-sandbox".to_string(),
    }
}

#[test]
fn profile_contains_managed_metadata_and_credential_denies() {
    let profile = seatbelt_profile(&resolved_policy(), None);
    assert!(profile.contains("(deny network*)"));
    assert!(profile.contains("/managed"));
    assert!(profile.contains("/workspace/.git"));
    assert!(profile.contains(r"\.env(\.[^/]*)?"));
}

fn authorization(preset: AccessPreset) -> AuthorizationContext {
    AuthorizationContext::materialize(
        UNIX,
        preset,
        "/workspace".to_string(),
        "/workspace".to_string(),
        list(&["/managed"]),
        Some("/home/tester"),
    )
    .expect("authorization")
}

#[test]
fn materialized_authorization_maps_without_reinterpreting_the_preset() {
    let policy =
        SandboxPolicy::from_authorization(UNIX, &authorization(AccessPreset::Workspace), 7_000)
            .expect("sandbox policy");
    assert_eq!(policy.filesystem_read, FilesystemPolicy::Host);
    assert_eq!(policy.write_roots, list(&["/workspace"]));
    assert_eq!(policy.unreadable_roots.first().map(String::as_str), Some("/managed"));
    assert!(policy.unreadable_roots.iter().any(|path| path.ends_with("/.ssh")));
    assert_eq!(policy.network, NetworkPolicy::Deny);
    assert!(policy.read_only_roots.contains(&"/workspace/.git".to_string()));
    assert!(policy.sensitive_path_names.contains(&".env".to_string()));
}

fn policy(preset: AccessPreset) -> AuthorizationContext {
    AuthorizationContext::materialize(
        UNIX,
        preset,
        "/workspace".to_string(),
        "/workspace".to_string(),
        list(&["/managed/project"]),
        None,
    )
    .expect("fixture policy should materialize")
}

#[test]
fn workspace_policy_protects_metadata_credentials_and_managed_state() {
    let policy = policy(AccessPreset::Workspace);
    assert_eq!(
        policy.authorize_path(UNIX, "/workspace/.git/config", PathOperation::Write),
        Err(PathAuthorizationFailure::ProtectedWorkspaceMetadata)
    );
    assert_eq!(
        policy.authorize_path(UNIX, "/workspace/config/.env.local", PathOperation::Read),
        Err(PathAuthorizationFailure::SensitivePath)
    );
    assert_eq!(
        policy.authorize_path(UNIX, "/managed/project/state/project.db", PathOperation::Read),
        Err(PathAuthorizationFailure::ManagedState)
    );
    assert_eq!(policy.authorize_path(UNIX, "/outside/ordinary", PathOperation::Read), Ok(()));
    assert_eq!(
        policy.authorize_path(UNIX, "/outside/.env.local", PathOperation::Read),
        Err(PathAuthorizationFailure::SensitivePath)
    );
    assert_eq!(
        policy.authorize_path(UNIX, "/outside/file", PathOperation::Write),
        Err(PathAuthorizationFailure::OutsideWorkspace)
    );
    assert_eq!(policy.authorize_path(UNIX, "/workspace/src/lib.rs", PathOperation::Write), Ok(()));
}

#[test]
fn full_access_still_denies_managed_state() {
    let policy = policy(AccessPreset::FullAccess);
    assert_eq!(policy.authorize_path(UNIX, "/outside/secret", PathOperation::Write), Ok(()));
    assert_eq!(policy.authorize_path(UNIX, "/outside/.env", PathOperation::Read), Ok(()));
    assert_eq!(
        policy.authorize_path(UNIX, "/managed/project/state/project.db", PathOperation::Write),
        Err(PathAuthorizationFailure::ManagedState)
    );
}

#[test]
fn policy_hash_is_stable_and_sensitive_to_the_workspace() {
    let first = policy(AccessPreset::Workspace);
    let second = policy(AccessPreset::Workspace);
    let other = AuthorizationContext::materialize(
        UNIX,
        AccessPreset::Workspace,
        "/other".to_string(),
        "/other".to_string(),
        list(&["/managed/project"]),
        None,
    )
    .expect("other policy should materialize");
    assert_eq!(
        first.policy_sha256().expect("first policy should serialize"),
        second.policy_sha256().expect("second policy should serialize")
    );
    assert_ne!(
        first.policy_sha256().expect("first policy should serialize"),
        other.policy_sha256().expect("other policy should serialize")
    );
}

#[test]
fn dots_lead_to_the_place_that_is_judged() {
    let policy = policy(AccessPreset::Workspace);
    assert_eq!(
        policy.authorize_path(UNIX, "/workspace/../managed/project/x", PathOperation::Read),
        Err(PathAuthorizationFailure::ManagedState)
    );
    assert_eq!(
        policy.authorize_path(UNIX, "relative", PathOperation::Read),
        Err(PathAuthorizationFailure::InvalidPath)
    );
    assert_eq!(
        policy.authorize_path(UNIX, "/..", PathOperation::Read),
        Err(PathAuthorizationFailure::InvalidPath)
    );
    let place = normalize_absolute(UNIX, "/a/./b/../c").expect("a place");
    assert_eq!(path_text(UNIX, &place), "/a/c");
    assert_eq!(path_join(UNIX, "/a", "b"), "/a/b");
    assert_eq!(path_join(UNIX, "/a/", "b"), "/a/b");
    assert_eq!(path_join(UNIX, "/a", "/b"), "/b");
}

#[test]
fn presets_grow() {
    assert_eq!(AccessPreset::ReadOnly.as_str(), "read_only");
    assert!(!AccessPreset::ModelOnly.allows_local_tool("exec_command"));
    assert!(AccessPreset::ReadOnly.allows_local_tool("exec_command"));
    assert!(!AccessPreset::ReadOnly.allows_local_tool("apply_patch"));
    assert!(AccessPreset::Workspace.allows_local_tool("apply_patch"));
    assert!(policy(AccessPreset::ReadOnly)
        .authorize_path(UNIX, "/workspace/a", PathOperation::Write)
        .is_err());
}

#[test]
fn workspaces_are_absolute() {
    let mut attachment = WorkspaceAttachment::single(WorkspaceId(1), "/w".to_string());
    assert_eq!(attachment.revision, 1);
    assert!(attachment.validate(UNIX).is_ok());
    attachment.path = "w".to_string();
    assert_eq!(attachment.validate(UNIX), Err("Workspace path must be absolute".to_string()));
    attachment.path = " ".to_string();
    assert_eq!(attachment.validate(UNIX), Err("Workspace path must not be empty".to_string()));
    attachment.revision = 0;
    assert_eq!(attachment.validate(UNIX), Err("Workspace revision must be positive".to_string()));
    assert_eq!(WorkspaceSelection::single("/x".to_string()).path, "/x");
    let environment = TurnEnvironmentSnapshot::materialize(
        UNIX,
        WorkspaceAttachment::single(WorkspaceId(1), "/w".to_string()),
        "relative".to_string(),
        AccessPreset::Workspace,
        None,
    );
    assert!(environment.is_err());
}

#[test]
fn usage_is_summed_without_overflow() {
    let mut usage = TokenUsage {
        input_tokens: u64::MAX - 1,
        output_tokens: 3,
        cached_input_tokens: 2,
        cache_write_input_tokens: 0,
    };
    usage.saturating_add_assign(TokenUsage {
        input_tokens: 10,
        output_tokens: 4,
        cached_input_tokens: 1,
        cache_write_input_tokens: 5,
    });
    assert_eq!(usage.input_tokens, u64::MAX);
    assert_eq!(usage.output_tokens, 7);
    assert_eq!(usage.cache_write_input_tokens, 5);
    let small = TokenUsage {
        input_tokens: 10,
        output_tokens: 4,
        cached_input_tokens: 6,
        cache_write_input_tokens: 0,
    };
    assert_eq!(small.total_tokens(), 14);
    assert_eq!(small.uncached_tokens(), 8);
}

#[test]
fn routes_are_validated() {
    let route = |sha: &str| ModelRouteSnapshot {
        profile: "p".to_string(),
        provider: "q".to_string(),
        upstream_model: "m".to_string(),
        context_window: 4_096,
        capabilities: ModelRouteCapabilities { hosted_web_search: false },
        reasoning_effort: None,
        config_sha256: sha.to_string(),
    };
    assert!(route(&"a".repeat(64)).validate().is_ok());
    assert!(route("short").validate().is_err());
    let blank = ModelRouteSnapshot { profile: " ".to_string(), ..route(&"a".repeat(64)) };
    assert_eq!(
        blank.validate(),
        Err("model route identifiers must be non-empty".to_string())
    );
    let narrow = ModelRouteSnapshot { context_window: 4_095, ..route(&"a".repeat(64)) };
    assert_eq!(
        narrow.validate(),
        Err("model route context window must be at least 4096".to_string())
    );
}

fn tool(name: &str) -> ToolDefinition {
    ToolDefinition {
        name: name.to_string(),
        description: "A tool".to_string(),
        input_schema: Json::parse(r#"{"type":"object"}"#).expect("schema"),
        supports_parallel: true,
    }
}

#[test]
fn tool_sets_have_one_identity() {
    let a = ToolSetSnapshot::materialize(vec![tool("b"), tool("a")]).expect("set");
    let b = ToolSetSnapshot::materialize(vec![tool("a"), tool("b")]).expect("set");
    assert_eq!(a.sha256, b.sha256);
    assert_eq!(a.names(), vec!["a", "b"]);
    assert!(a.validate().is_ok());
    assert!(ToolSetSnapshot::materialize(vec![tool("a"), tool("a")]).is_err());
    let forged = ToolSetSnapshot { sha256: "0".repeat(64), ..a };
    assert!(forged.validate().is_err());
}

#[test]
fn tool_sets_are_refused_for_their_names() {
    for names in [["a", "b", "a"], ["b", "a", "a"], ["a", " ", "b"], [" ", "b", "a"]] {
        let tools = names.iter().map(|name| tool(name)).collect();
        assert!(ToolSetSnapshot::materialize(tools).is_err());
    }
    for names in [["a", "b", "c"], ["c", "a", "b"], ["b", "c", "a"]] {
        let tools = names.iter().map(|name| tool(name)).collect();
        assert!(ToolSetSnapshot::materialize(tools).is_ok());
    }
    let mut swapped = ToolSetSnapshot::materialize(vec![tool("a"), tool("b")]).expect("set");
    swapped.definitions.reverse();
    assert!(swapped.validate().is_err());
    let mut renamed = ToolSetSnapshot::materialize(vec![tool("a"), tool("b")]).expect("set");
    renamed.definitions[1].name = "c".to_string();
    assert!(renamed.validate().is_err());
}

#[test]
fn shells_depend_on_the_platform() {
    let command = shell_program(Platform::Linux, "echo hi", false, None);
    assert_eq!(command.program, "/bin/sh");
    assert_eq!(command.args, list(&["-c", "echo hi"]));
    let command = shell_program(Platform::Windows, "dir", false, Some("C:/cmd.exe"));
    assert_eq!(command.program, "C:/cmd.exe");
    assert_eq!(command.args, list(&["/D", "/S", "/C", "dir"]));
    let command = shell_program(Platform::MacOs, "ls", true, None);
    assert_eq!(command.program, "/usr/bin/script");
    let refused = SandboxExecutor.prepare_shell(Platform::Linux, "  ", false, None);
    assert_eq!(
        refused.err().map(|error| error.message()),
        Some("invalid command: command must not be empty".to_string())
    );
    assert_eq!(SandboxBackend::LinuxBubblewrap.as_str(), "linux_bubblewrap");
}

#[test]
fn output_is_kept_up_to_a_limit() {
    let mut output = LimitedOutput::new(5);
    output.take_in(b"abc");
    output.take_in(b"defg");
    assert_eq!(output.text(), "abcde");
    let mut whole = LimitedOutput::new(100);
    whole.take_in(&[0x61, 0xff, 0x62]);
    assert_eq!(whole.text(), "a\u{fffd}b");
}

#[test]
fn errors_say_what_happened() {
    assert_eq!(
        ExecutionError::Timeout(1_500).message(),
        "command timed out after 1.5s"
    );
    assert_eq!(ExecutionError::Cancelled.message(), "command was cancelled");
    assert_eq!(
        ExecutionError::Spawn("none".to_string()).message(),
        "failed to spawn command: none"
    );
}

#[test]
fn masks_follow_binds() {
    let command = ShellCommand { program: "/bin/sh".to_string(), args: list(&["-c", "true"]) };
    let host = HostPaths {
        existing: list(&["/workspace", "/managed", "/workspace/.git", "/workspace/.env"]),
        directories: list(&["/workspace", "/managed", "/workspace/.git"]),
        others: list(&["/workspace/.env"]),
    };
    let arguments = write_bwrap_arguments(&command, "/workspace", &resolved_policy(), &host);
    let bound = arguments.iter().position(|a| a == "--bind").expect("a bind");
    let masked = arguments.iter().rposition(|a| a == "/workspace/.env").expect("a mask");
    assert!(bound < masked);
    assert!(arguments.contains(&"--unshare-net".to_string()));
    assert_eq!(arguments[arguments.len() - 3..], list(&["/bin/sh", "-c", "true"])[..]);
}

#[test]
fn bwrap_is_not_taken_from_writable_places() {
    let place = |path: &str| SearchDirectory { path: path.to_string(), has_bwrap: true };
    assert_eq!(
        find_bwrap(&vec![place("/workspace/bin"), place("/usr/bin")], &list(&["/workspace"])),
        Some("/usr/bin/bwrap".to_string())
    );
    assert_eq!(find_bwrap(&vec![place("/workspace/bin")], &list(&["/workspace"])), None);
    assert!(is_wsl1(Some("Linux version 4.4.0-19041-Microsoft")));
    assert!(!is_wsl1(Some("5.15.90.1-microsoft-standard-WSL2")));
    assert!(!is_wsl1(None));
}

#[test]
fn seatbelt_texts_are_escaped() {
    assert_eq!(seatbelt_literal("/a\"b\\c"), "/a\\\"b\\\\c");
    let regex = sensitive_path_regex(&list(&[".npmrc"])).expect("a regex");
    assert!(regex.contains(r"\.npmrc"));
}

#[test]
fn sandboxes_are_chosen_by_platform() {
    assert_eq!(choose_backend(Platform::Linux, true).ok(), Some(SandboxBackend::LinuxBubblewrap));
    assert_eq!(choose_backend(Platform::MacOs, true).ok(), Some(SandboxBackend::MacOsSeatbelt));
    assert_eq!(choose_backend(Platform::Other, false).ok(), Some(SandboxBackend::Unrestricted));
    assert!(choose_backend(Platform::Other, true).is_err());
    assert!(SandboxPolicy::workflow_runtime(UNIX, "/w").expect("policy").requires_platform_sandbox());
    assert!(!SandboxPolicy::unrestricted(1_000).requires_platform_sandbox());
}

#[test]
fn paths_are_resolved_from_what_exists() {
    let place = find_place(UNIX, "/a/b/../c/d").expect("place");
    assert_eq!(path_text(UNIX, &place), "/a/c/d");
    assert_eq!(ancestors(UNIX, &place), list(&["/a/c/d", "/a/c", "/a", "/"]));
    assert_eq!(
        resolve_path(UNIX, "/a/c/d", &place, Some((1, "/real".to_string()))).ok(),
        Some("/real/d".to_string())
    );
    assert!(resolve_path(UNIX, "/a/c/d", &place, None).is_err());
    assert!(find_place(UNIX, "a").is_err());
    assert_eq!(
        deduplicate_paths(UNIX, &list(&["/b", "/a", "/b/"])).len(),
        2
    );
}

#[test]
fn a_sandbox_can_use_its_root() {
    let policy = SandboxPolicy::from_authorization(UNIX, &authorization(AccessPreset::Workspace), 1)
        .expect("policy");
    let resolved = SandboxManager.resolve_policy(
        UNIX,
        policy,
        ResolvedPaths {
            read_roots: Vec::new(),
            write_roots: list(&["/workspace"]),
            unreadable_roots: list(&["/managed"]),
            read_only_roots: Vec::new(),
            sandbox_root: "/sandbox".to_string(),
            executable_roots: Vec::new(),
            search_roots: Vec::new(),
            sensitive_paths: Vec::new(),
        },
    );
    assert!(resolved.read_roots.contains(&"/sandbox".to_string()));
    assert_eq!(resolved.write_roots, list(&["/sandbox", "/workspace"]));
    assert_eq!(resolved.platform_state_root, "/managed/runtime/windows-sandbox");
}

#[test]
fn requests_carry_overrides() {
    let request = SandboxRequest::new(
        "/bin/sh".to_string(),
        Vec::new(),
        "/w".to_string(),
        "/s".to_string(),
        SandboxPolicy::unrestricted(5),
    )
    .with_environment_override("A".to_string(), "1".to_string())
    .with_environment_override("B".to_string(), "2".to_string());
    assert_eq!(request.environment_overrides, vec![variable("A", "1"), variable("B", "2")]);
    let made = sandbox_directories(UNIX, "/w", true, "/s").expect("directories");
    assert_eq!((made.home.as_str(), made.tmp.as_str()), ("/s/home", "/s/tmp"));
    assert!(matches!(
        sandbox_directories(UNIX, "/w", false, "/s"),
        Err(ExecutionError::InvalidWorkspace(path)) if path == "/w"
    ));
}

fn entry(path: &str, name: &str, is_dir: bool, is_symlink: bool) -> DirectoryEntry {
    DirectoryEntry { path: path.to_string(), name: name.to_string(), is_dir, is_symlink }
}

#[test]
fn scans_find_credentials_and_follow_no_links() {
    let mut scan = SensitiveScan::new(&list(&["/w"]), &list(&[".npmrc"]));
    assert_eq!(scan.next_directory(), Some("/w".to_string()));
    let step = scan.visit(entry("/w/.env.local", ".env.local", false, false)).expect("room");
    assert!(matches!(step, EntryStep::Resolve));
    scan.note(UNIX, "/w/.env.local".to_string()).expect("room");
    let step = scan.visit(entry("/w/link", "link", true, true)).expect("room");
    assert!(matches!(step, EntryStep::Pass));
    scan.visit(entry("/w/src", "src", true, false)).expect("room");
    assert_eq!(scan.next_directory(), Some("/w/src".to_string()));
    assert_eq!(scan.next_directory(), None);
    assert_eq!(scan.matches, list(&["/w/.env.local"]));
}

#[test]
fn texts_are_cut_and_sorted() {
    assert_eq!(trim(" \t a b\u{3000}\n"), "a b");
    assert_eq!(to_lower("AbÄ"), "abÄ");
    assert_eq!(split_lines("a\r\nb\n\nc"), list(&["a", "b", "", "c"]));
    assert_eq!(split_lines(""), Vec::<String>::new());
    assert_eq!(sort_texts(&list(&["b", "", "ab", "a"])), list(&["", "a", "ab", "b"]));
}

#[test]
fn digests_match_known_values() {
    assert_eq!(
        sha256_hex_of_text("abc"),
        "ba7816bf8f01cfea414140de5dae2223b00361a396177a9cb410ff61f20015ad"
    );
    assert_eq!(
        sha256_hex(&[]),
        "e3b0c44298fc1c149afbf4c8996fb92427ae41e4649b934ca495991b7852b855"
    );
}
