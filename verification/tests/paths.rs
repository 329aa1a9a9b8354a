//! Paths, as Unix and Windows hosts read them.

use papermachine::execution::error::ExecutionError;
use papermachine::execution::resolve::{
    ancestors, deduplicate_paths, executable_read_root, find_place, resolve_path,
};
use papermachine::path::{
    find_text_behind, is_absolute, is_inside, is_same_path, normalize_absolute, path_join,
    path_parts, path_text, Part, PathStyle, PrefixKind,
};
use papermachine::protocol::ids::WorkspaceId;
use papermachine::protocol::permissions::{
    AccessPreset, AuthorizationContext, PathAuthorizationFailure, PathOperation,
};
use papermachine::protocol::project::WorkspaceAttachment;
use papermachine::server::workspace::workspace_path;
use std::path::Path;
use std::time::Duration;

const UNIX: PathStyle = PathStyle::Unix;
const WINDOWS: PathStyle = PathStyle::Windows;

const UNIX_PATHS: [&str; 14] = [
    "", "/", "//", ".", "./", "./a", "a", "a/b", "/a", "/a/b/", "//a/./b", "/a/../b", "..", "../a",
];

fn list(items: &[&str]) -> Vec<String> {
    items.iter().map(|item| item.to_string()).collect()
}

#[test]
fn unix_paths_are_read_as_the_host_reads_them() {
    for a in UNIX_PATHS {
        let path = Path::new(a);
        assert_eq!(is_absolute(UNIX, a), path.is_absolute(), "{a}");
        for b in UNIX_PATHS {
            let other = Path::new(b);
            assert_eq!(Path::new(&path_join(UNIX, a, b)), path.join(other), "{a} {b}");
            assert_eq!(path_join(UNIX, a, b), path.join(other).to_string_lossy(), "{a} {b}");
            assert_eq!(is_same_path(UNIX, a, b), path == other, "{a} {b}");
            let inside = is_inside(UNIX, &path_parts(UNIX, a), b);
            assert_eq!(inside, path.starts_with(other), "{a} {b}");
            if let Ok(rest) = path.strip_prefix(other) {
                let n = path_parts(UNIX, b).len();
                assert_eq!(find_text_behind(UNIX, a, n), rest.to_string_lossy(), "{a} {b}");
            }
        }
    }
}

#[test]
fn unix_paths_stand_in_the_order_of_the_host() {
    let mut sorted = list(&UNIX_PATHS);
    sorted.sort_by(|a, b| Path::new(a).cmp(Path::new(b)));
    sorted.dedup_by(|a, b| Path::new(a) == Path::new(b));
    let ordered = deduplicate_paths(UNIX, &list(&UNIX_PATHS));
    assert_eq!(ordered.len(), sorted.len());
    for (a, b) in ordered.iter().zip(&sorted) {
        assert_eq!(Path::new(a), Path::new(b));
    }
}

#[test]
fn windows_paths_are_absolute_behind_a_prefix() {
    for path in [
        r"C:\x", "c:/x", r"C:\", r"\\server\share", r"\\server\share\x", "//server/share/x",
        r"\\?\C:\x", r"\\?\C:", r"\\?\UNC\server\share\x", r"\\?\name", r"\\.\COM1",
    ] {
        assert!(is_absolute(WINDOWS, path), "{path}");
        assert!(!is_absolute(UNIX, path) || path.starts_with('/'), "{path}");
    }
    for path in ["", "x", r"\x", "/x", "C:x", "C:", r"\\server", r"\\server\", "1:\\x"] {
        assert!(!is_absolute(WINDOWS, path), "{path}");
    }
}

#[test]
fn windows_paths_are_followed() {
    for (base, relative, joined) in [
        (r"C:\a", "b", r"C:\a\b"),
        (r"C:\a\", "b", r"C:\a\b"),
        ("C:/a/", "b", "C:/a/b"),
        ("C:/a", "b/c", r"C:/a\b/c"),
        ("C:", "b", "C:b"),
        ("", "b", "b"),
        ("a", "b", r"a\b"),
        (r"C:\a", r"D:\b", r"D:\b"),
        (r"C:\a", "D:b", "D:b"),
        (r"C:\a", r"\b", r"C:\b"),
        (r"\\s\share\a", "/b", r"\\s\share/b"),
        (r"\\s\share", "b", r"\\s\share\b"),
        (r"\\?\C:\a", "b", r"\\?\C:\a\b"),
        (r"\\?\c:\a", "../b/./c", r"\\?\c:\b\c"),
        (r"\\?\C:\a\b", r"\c", r"\\?\C:\c"),
        (r"\\?\C:", "a", r"\\?\C:\a"),
        (r"\\?\C:\a", r"D:\b", r"D:\b"),
        (r"\\?\C:\", "runtime/windows-sandbox", r"\\?\C:\runtime\windows-sandbox"),
    ] {
        assert_eq!(path_join(WINDOWS, base, relative), joined, "{base} {relative}");
    }
}

#[test]
fn windows_paths_have_parts() {
    let name = |text: &str| Part::Name(text.to_string());
    let disk = |text: &str| Part::Prefix(PrefixKind::Disk, text.to_string(), String::new());
    assert_eq!(
        path_parts(WINDOWS, r"c:\a/.\b\..\c"),
        vec![disk("C"), Part::Root, name("a"), name("b"), Part::Parent, name("c")]
    );
    assert_eq!(path_parts(WINDOWS, "C:a"), vec![disk("C"), name("a")]);
    assert_eq!(path_parts(WINDOWS, r".\a"), vec![Part::Current, name("a")]);
    let share =
        Part::Prefix(PrefixKind::Unc, "server".to_string(), "share".to_string());
    assert_eq!(path_parts(WINDOWS, r"\\server\share"), vec![share, Part::Root]);
    let drive =
        Part::Prefix(PrefixKind::VerbatimDisk, "C".to_string(), String::new());
    assert_eq!(
        path_parts(WINDOWS, r"\\?\C:\a/b\."),
        vec![drive, Part::Root, name("a/b"), Part::Current]
    );
    assert!(is_same_path(WINDOWS, r"c:\a\b", "C:/a//b/"));
    assert!(!is_same_path(WINDOWS, r"C:\a", r"C:\A"));
    assert!(!is_same_path(WINDOWS, r"C:\a", r"\\?\C:\a"));
}

#[test]
fn windows_paths_are_normalized() {
    for (path, place) in [
        (r"C:\a\..\b\.\c", Some(r"C:\b\c")),
        (r"c:/a/b/../..", Some(r"C:\")),
        (r"\\server\share\a\..", Some(r"\\server\share\")),
        (r"\\?\C:\a\.\b\..", Some(r"\\?\C:\a")),
        (r"C:\..", None),
        (r"C:\a\D:", None),
        ("C:a", None),
        (r"\a", None),
    ] {
        let found = normalize_absolute(WINDOWS, path);
        let text = found.map(|place| path_text(WINDOWS, &place));
        assert_eq!(text.as_deref(), place, "{path}");
    }
    let place = find_place(WINDOWS, r"C:\a\..\b\c").expect("a place");
    assert_eq!(ancestors(WINDOWS, &place), list(&[r"C:\b\c", r"C:\b", r"C:\"]));
    assert_eq!(
        resolve_path(WINDOWS, "x", &place, Some((1, r"\\?\C:\Real".to_string()))).ok(),
        Some(r"\\?\C:\Real\c".to_string())
    );
    assert!(resolve_path(WINDOWS, "x", &place, Some((3, String::new()))).is_err());
    assert_eq!(
        executable_read_root(WINDOWS, r"\\?\C:\tools\bin\x.exe").as_deref(),
        Some(r"\\?\C:\tools")
    );
    assert_eq!(executable_read_root(WINDOWS, r"C:\bin\x.exe").as_deref(), Some(r"C:\bin"));
    assert_eq!(executable_read_root(UNIX, "/usr/bin/x").as_deref(), Some("/usr"));
    assert_eq!(executable_read_root(UNIX, "/bin/x").as_deref(), Some("/bin"));
    assert_eq!(executable_read_root(UNIX, "/"), None);
    assert_eq!(
        deduplicate_paths(WINDOWS, &list(&[r"C:\b", r"\\s\t\a", "c:/b", r"\\?\C:\a"])),
        list(&[r"\\?\C:\a", r"\\s\t\a", r"C:\b"])
    );
}

#[test]
fn windows_paths_are_authorized() {
    let policy = AuthorizationContext::materialize(
        WINDOWS,
        AccessPreset::Workspace,
        r"C:\work".to_string(),
        "c:/work/sub".to_string(),
        vec![r"D:\managed".to_string()],
        Some(r"C:\Users\me"),
    )
    .expect("policy");
    assert_eq!(policy.filesystem.sensitive_roots[0], r"C:\Users\me\.ssh");
    let write = |path: &str| policy.authorize_path(WINDOWS, path, PathOperation::Write);
    assert_eq!(write("c:/work/src/lib.rs"), Ok(()));
    assert_eq!(
        write(r"C:\work\.git\config"),
        Err(PathAuthorizationFailure::ProtectedWorkspaceMetadata)
    );
    assert_eq!(write(r"C:\work\..\other"), Err(PathAuthorizationFailure::OutsideWorkspace));
    assert_eq!(write(r"C:\x\..\work\.env"), Err(PathAuthorizationFailure::SensitivePath));
    assert_eq!(write(r"d:\x\..\managed\db"), Err(PathAuthorizationFailure::ManagedState));
    assert_eq!(write(r"C:\Users\me\.ssh\id"), Err(PathAuthorizationFailure::SensitivePath));
    assert_eq!(write("/work/x"), Err(PathAuthorizationFailure::InvalidPath));
    assert_eq!(write(r"C:\.."), Err(PathAuthorizationFailure::InvalidPath));
    let outside = AuthorizationContext::materialize(
        WINDOWS,
        AccessPreset::Workspace,
        r"C:\work".to_string(),
        r"D:\work".to_string(),
        vec![r"D:\managed".to_string()],
        None,
    );
    assert_eq!(outside.err().as_deref(), Some("Turn cwd must stay inside the Workspace"));
    let attachment = WorkspaceAttachment::single(WorkspaceId(1), r"C:\work".to_string());
    assert!(attachment.validate(WINDOWS).is_ok());
    assert!(attachment.validate(UNIX).is_err());
    assert_eq!(workspace_path(WINDOWS, r" C:\work ").expect("absolute"), r"C:\work");
}

#[test]
fn windows_definitions_lie_below_the_root() {
    for (path, n, rest) in [
        (r"C:\w\user/a\workflow.pm", 3, r"user/a\workflow.pm"),
        (r"C:\w\\.\user\a\", 3, r"user\a"),
        (r"C:\w", 1, r"\w"),
        (r"C:\w\", 0, r"C:\w"),
        (r"C:\w\", 3, ""),
    ] {
        assert_eq!(find_text_behind(WINDOWS, path, n), rest, "{path}");
    }
}

#[test]
fn times_are_shown_as_the_standard_library_shows_them() {
    for millis in [0, 1, 10, 999, 1_000, 1_001, 1_010, 1_050, 1_100, 1_230, 60_000, 3_600_500] {
        assert_eq!(
            ExecutionError::Timeout(millis).message(),
            format!("command timed out after {:?}", Duration::from_millis(millis))
        );
    }
    assert_eq!(ExecutionError::Timeout(0).message(), "command timed out after 0ns");
}
