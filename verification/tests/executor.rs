use sandbox_rs::executor::{
    CommandExecutor, ExecutionPlan, LinuxCommandExecutor, SandboxError, SpawnOutcome, StagedFile,
};

fn b(s: &str) -> Vec<u8> {
    s.as_bytes().to_vec()
}

fn strings(words: &[&str]) -> Vec<String> {
    words.iter().map(|w| w.to_string()).collect()
}

fn executor() -> LinuxCommandExecutor {
    LinuxCommandExecutor::new(b("/tmp/work"))
}

#[test]
fn new_stores_the_working_directory_root() {
    let executor = LinuxCommandExecutor::new(b("/tmp/work"));
    assert_eq!(executor.working_dir_root, b("/tmp/work"));
}

#[test]
fn empty_command_is_rejected() {
    let r = executor().plan_execution(&strings(&[]), &vec![b("/tmp/work/a")], &b("/tmp/work"));
    assert!(matches!(r, Err(SandboxError::InvalidCommand)));
}

#[test]
fn file_outside_the_root_is_a_containment_violation() {
    let r = executor().plan_execution(
        &strings(&["cat", "a"]),
        &vec![b("/etc/passwd")],
        &b("/tmp/work"),
    );
    assert_eq!(r, Err(SandboxError::PathContainmentViolation { path: b("/etc/passwd") }));
}

#[test]
fn first_violation_in_input_order_is_reported() {
    let r = executor().plan_execution(
        &strings(&["cat", "a"]),
        &vec![b("/tmp/work/a"), b("/etc/passwd"), b("/var/log/syslog")],
        &b("/tmp/work"),
    );
    assert_eq!(r, Err(SandboxError::PathContainmentViolation { path: b("/etc/passwd") }));
}

#[test]
fn traversal_components_are_a_containment_violation() {
    let r = executor().plan_execution(
        &strings(&["cat", "a"]),
        &vec![b("/tmp/work/../secret")],
        &b("/tmp/work"),
    );
    assert_eq!(r, Err(SandboxError::PathContainmentViolation { path: b("/tmp/work/../secret") }));
}

#[test]
fn sibling_with_the_root_as_byte_prefix_is_a_violation() {
    let r = executor().plan_execution(
        &strings(&["cat", "a"]),
        &vec![b("/tmp/workx/file")],
        &b("/tmp/work"),
    );
    assert_eq!(r, Err(SandboxError::PathContainmentViolation { path: b("/tmp/workx/file") }));
}

#[test]
fn accepted_plan_stages_files_at_their_relative_paths() {
    let r = executor().plan_execution(
        &strings(&["cat", "data/input.txt"]),
        &vec![b("/tmp/work/data/input.txt"), b("/tmp/work/top.txt")],
        &b("/tmp/work"),
    );
    let expected = ExecutionPlan {
        program: "cat".to_string(),
        args: strings(&["data/input.txt"]),
        staged: vec![
            StagedFile { source: b("/tmp/work/data/input.txt"), dest_rel: b("data/input.txt") },
            StagedFile { source: b("/tmp/work/top.txt"), dest_rel: b("top.txt") },
        ],
    };
    assert_eq!(r, Ok(expected));
}

#[test]
fn empty_file_list_yields_an_empty_staging_plan() {
    let r = executor().plan_execution(
        &strings(&["cat", "/tmp/work/secret.txt"]),
        &vec![],
        &b("/tmp/work"),
    );
    let plan = r.unwrap();
    assert_eq!(plan.program, "cat".to_string());
    assert_eq!(plan.args, strings(&["/tmp/work/secret.txt"]));
    assert_eq!(plan.staged, vec![]);
}

#[test]
fn duplicate_files_are_staged_redundantly() {
    let r = executor().plan_execution(
        &strings(&["cat", "a"]),
        &vec![b("/tmp/work/a"), b("/tmp/work/a")],
        &b("/tmp/work"),
    );
    let plan = r.unwrap();
    assert_eq!(plan.staged.len(), 2);
    assert_eq!(plan.staged[0], plan.staged[1]);
}

#[test]
fn successful_exit_returns_the_captured_stdout() {
    let r = executor().classify_outcome(SpawnOutcome::Exited {
        success: true,
        stdout: b("hello\n"),
        stderr: String::new(),
    });
    assert_eq!(r, Ok(b("hello\n")));
}

#[test]
fn unsuccessful_exit_carries_the_stderr_verbatim() {
    let r = executor().classify_outcome(SpawnOutcome::Exited {
        success: false,
        stdout: b("partial"),
        stderr: "cat: secret.txt: No such file or directory\n".to_string(),
    });
    assert_eq!(
        r,
        Err(SandboxError::CommandFailed {
            diagnostic: "cat: secret.txt: No such file or directory\n".to_string()
        })
    );
}

#[test]
fn launch_failure_stays_distinct_from_a_failed_command() {
    let r = executor().classify_outcome(SpawnOutcome::LaunchFailed {
        cause: "No such file or directory".to_string(),
    });
    assert_eq!(
        r,
        Err(SandboxError::ProcessLaunchFailed { cause: "No such file or directory".to_string() })
    );
}

#[test]
fn repeated_invocations_with_identical_inputs_agree() {
    let command = strings(&["cat", "data/input.txt"]);
    let files = vec![b("/tmp/work/data/input.txt")];
    let root = b("/tmp/work");
    let first = executor().plan_execution(&command, &files, &root);
    let second = executor().plan_execution(&command, &files, &root);
    assert_eq!(first, second);
    let outcome = || SpawnOutcome::Exited {
        success: true,
        stdout: b("hello\n"),
        stderr: String::new(),
    };
    let c1 = executor().classify_outcome(outcome());
    let c2 = executor().classify_outcome(outcome());
    assert_eq!(c1, c2);
}
