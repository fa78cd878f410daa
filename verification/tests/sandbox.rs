use oris_runtime::sandbox::{
    command_label, compute_blast_radius, count_changed_lines, env_key_denied, failure_output, hash_patch, lines,
    parse_changed_files, program_allowed, should_skip, truncate_to_limit, validate_target, CommandExecution,
    LocalProcessSandbox, SandboxError, SandboxPolicy,
};
use oris_runtime::spec::MutationTarget;

const MANIFEST_PATCH: &str = "\
diff --git a/Cargo.toml b/Cargo.toml
new file mode 100644
index 0000000..1111111
--- /dev/null
+++ b/Cargo.toml
@@ -0,0 +1 @@
+[package]
";

const TWO_FILE_PATCH: &str = "\
diff --git a/src/lib.rs b/src/lib.rs
--- a/src/lib.rs
+++ b/src/lib.rs
@@ -1,2 +1,2 @@
-pub fn hello() {}
+pub fn hello() -> u8 { 1 }
 // unchanged
diff --git a/README.md b/README.md
--- a/README.md
+++ b/README.md
@@ -1 +1,2 @@
+# Title
";

#[test]
fn command_runner_rejects_non_allowlisted_program() {
    let policy = SandboxPolicy {
        allowed_programs: vec!["git".into()],
        max_duration_ms: 1_000,
        max_output_bytes: 1024,
        denied_env_prefixes: Vec::new(),
    };
    assert!(!program_allowed(&policy, "cargo"));
    assert!(program_allowed(&policy, "git"));
    let denied = SandboxError::CommandDenied("cargo".to_string());
    assert_eq!(denied.message(), "command denied by policy: cargo");
}

#[test]
fn sandbox_rejects_patch_outside_allowlist() {
    let target = MutationTarget::Paths { allow: vec!["src".into()] };
    let files = parse_changed_files(MANIFEST_PATCH);
    assert_eq!(files, vec!["Cargo.toml".to_string()]);
    let result = validate_target(&target, &files);
    match result {
        Err(SandboxError::TargetViolation(path)) => assert_eq!(path, "Cargo.toml"),
        other => panic!("expected a target violation, got {:?}", other),
    }
}

#[test]
fn default_policy_allows_the_toolchain_only() {
    let policy = SandboxPolicy::default();
    assert_eq!(policy.allowed_programs, vec!["cargo", "rustc", "git"]);
    assert_eq!(policy.max_duration_ms, 300_000);
    assert_eq!(policy.max_output_bytes, 1_048_576);
    assert!(program_allowed(&policy, "rustc"));
    assert!(!program_allowed(&policy, "sh"));
    assert!(env_key_denied(&policy, "github_token"));
    assert!(env_key_denied(&policy, "AWS_SECRET_ACCESS_KEY"));
    assert!(!env_key_denied(&policy, "PATH"));
}

#[test]
fn changed_files_are_sorted_and_deduplicated() {
    let files = parse_changed_files(TWO_FILE_PATCH);
    assert_eq!(files, vec!["README.md".to_string(), "src/lib.rs".to_string()]);
    assert_eq!(count_changed_lines(TWO_FILE_PATCH), 3);
    let radius = compute_blast_radius(TWO_FILE_PATCH);
    assert_eq!(radius.files_changed, 2);
    assert_eq!(radius.lines_changed, 3);
    assert_eq!(count_changed_lines(MANIFEST_PATCH), 1);
}

#[test]
fn deleted_files_are_not_reported() {
    let patch = "diff --git a/old.rs b/old.rs\n--- a/old.rs\n+++ /dev/null\n@@ -1 +0,0 @@\n-fn old() {}\n";
    assert_eq!(parse_changed_files(patch), vec!["old.rs".to_string()]);
    assert_eq!(count_changed_lines(patch), 1);
}

#[test]
fn changed_files_come_once_and_in_path_order() {
    let patch = "diff --git a/z.rs b/z.rs\n+++ b/z.rs\ndiff --git a/a.rs b/a.rs\n+++ /dev/null\n";
    assert_eq!(parse_changed_files(patch), vec!["a.rs".to_string(), "z.rs".to_string()]);
}

#[test]
fn targets_limit_changed_files() {
    let files = vec!["crates/core/src/lib.rs".to_string(), "README.md".to_string()];
    assert!(validate_target(&MutationTarget::WorkspaceRoot, &files).is_ok());
    match validate_target(&MutationTarget::Crate { name: "core".into() }, &files) {
        Err(SandboxError::TargetViolation(path)) => assert_eq!(path, "README.md"),
        other => panic!("expected a target violation, got {:?}", other),
    }
    let allow = MutationTarget::Paths { allow: vec!["crates".into(), "README.md".into()] };
    assert!(validate_target(&allow, &files).is_ok());
    let partial = MutationTarget::Paths { allow: vec!["crates/".into(), "README".into()] };
    match validate_target(&partial, &files) {
        Err(SandboxError::TargetViolation(path)) => assert_eq!(path, "crates/core/src/lib.rs"),
        other => panic!("expected a target violation, got {:?}", other),
    }
    assert!(validate_target(&MutationTarget::Paths { allow: vec!["src".into()] }, &Vec::new()).is_ok());
}

#[test]
fn lines_split_like_str_lines() {
    assert_eq!(lines("a\r\nb\n\nc"), vec!["a", "b", "", "c"]);
    assert_eq!(lines("a\n"), vec!["a"]);
    assert!(lines("").is_empty());
}

#[test]
fn workspace_copy_skips_git_and_target() {
    assert!(should_skip(Some(".git")));
    assert!(should_skip(Some("target")));
    assert!(!should_skip(Some("src")));
    assert!(!should_skip(None));
}

#[test]
fn output_is_truncated_to_the_limit() {
    assert_eq!(truncate_to_limit(b"hello world", 5), "hello");
    assert_eq!(truncate_to_limit(b"hi", 10), "hi");
    assert_eq!(truncate_to_limit(&[0x68, 0xff, 0x69], 3), "h\u{fffd}i");
}

#[test]
fn patches_are_fingerprinted_with_sha256() {
    assert_eq!(hash_patch("abc"), "ba7816bf8f01cfea414140de5dae2223b00361a396177a9cb410ff61f20015ad");
    assert_ne!(hash_patch(MANIFEST_PATCH), hash_patch(TWO_FILE_PATCH));
}

#[test]
fn command_labels_and_failure_output() {
    assert_eq!(command_label("cargo", &vec!["test".to_string(), "--quiet".to_string()]), "cargo test --quiet");
    assert_eq!(command_label("git", &Vec::new()), "git ");
    let mut run = CommandExecution { success: false, exit_code: Some(1), stdout: "out".into(), stderr: "".into(), duration_ms: 3 };
    assert_eq!(failure_output(&run), "out");
    run.stderr = "err".into();
    assert_eq!(failure_output(&run), "err");
}

#[test]
fn sandbox_errors_have_messages() {
    assert_eq!(SandboxError::UnsupportedArtifact.message(), "unsupported artifact encoding");
    assert_eq!(SandboxError::TargetViolation("x".into()).message(), "mutation target violation: x");
    assert_eq!(SandboxError::Timeout("git log".into()).message(), "command timed out: git log");
    assert_eq!(SandboxError::PatchRejected("e".into()).message(), "patch rejected: e");
    assert_eq!(SandboxError::PatchApplyFailed("e".into()).message(), "patch apply failed: e");
    assert_eq!(SandboxError::Io("e".into()).message(), "sandbox I/O error: e");
}

#[test]
fn sandbox_directory_is_per_run_and_mutation() {
    let sandbox = LocalProcessSandbox::new("run-1", "/work", "/tmp/oris");
    assert_eq!(sandbox.sandbox_base("mutation-1"), "/tmp/oris/run-1/mutation-1");
    let absolute = LocalProcessSandbox::new("/abs", "/work", "/tmp/oris");
    assert_eq!(absolute.sandbox_base("m"), "/abs/m");
}

#[test]
fn patches_are_checked_before_they_are_applied() {
    let target = MutationTarget::Paths { allow: vec!["src".into()] };
    match oris_runtime::sandbox::check_patch(false, TWO_FILE_PATCH, &target) {
        Err(SandboxError::UnsupportedArtifact) => {}
        other => panic!("expected an unsupported artifact, got {:?}", other),
    }
    match oris_runtime::sandbox::check_patch(true, TWO_FILE_PATCH, &target) {
        Err(SandboxError::TargetViolation(path)) => assert_eq!(path, "README.md"),
        other => panic!("expected a target violation, got {:?}", other),
    }
    let files = oris_runtime::sandbox::check_patch(true, TWO_FILE_PATCH, &MutationTarget::WorkspaceRoot).expect("allowed");
    assert_eq!(files, vec!["README.md".to_string(), "src/lib.rs".to_string()]);
}
