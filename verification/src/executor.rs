//! The sandbox executor.
//!
//! One invocation runs in three stages. Planning (verified here) checks the
//! command and the containment of every input file and produces the staging
//! and launch plan. The host then carries the plan out: it creates a fresh
//! isolated directory, copies each planned file to its relative destination
//! below it, launches the program from it, and removes it again on every
//! exit path. Classification (verified here) turns what became of the
//! launch into the result owed to the caller.

use crate::paths::{file_under_root, rel_suffix, strip_root};
use vstd::prelude::*;

verus! {

/// Why an invocation failed.
#[derive(Debug, PartialEq, Eq)]
pub enum SandboxError {
    /// The command sequence was empty.
    InvalidCommand,
    /// The isolated directory could not be created.
    TemporaryDirectoryCreationFailed,
    /// An input file does not resolve below the working-directory root.
    PathContainmentViolation { path: Vec<u8> },
    /// An input file could not be copied into the isolated directory.
    CopyFailed { path: Vec<u8>, cause: String },
    /// The command's executable could not be launched at all.
    ProcessLaunchFailed { cause: String },
    /// The command ran and exited unsuccessfully; the diagnostic carries the
    /// captured standard error verbatim.
    CommandFailed { diagnostic: String },
}

/// One file to stage: the absolute source path and the destination path
/// relative to the isolated directory.
#[derive(Debug, PartialEq, Eq)]
pub struct StagedFile {
    /// Absolute path of the file to copy.
    pub source: Vec<u8>,
    /// Where the copy goes, relative to the isolated directory.
    pub dest_rel: Vec<u8>,
}

/// Mathematical image of a staged file.
pub struct StagedFileView {
    /// Absolute path of the file to copy.
    pub source: Seq<u8>,
    /// Where the copy goes, relative to the isolated directory.
    pub dest_rel: Seq<u8>,
}

impl View for StagedFile {
    type V = StagedFileView;

    open spec fn view(&self) -> StagedFileView {
        StagedFileView { source: self.source@, dest_rel: self.dest_rel@ }
    }
}

/// Everything the host must do for one invocation: stage the listed files
/// below a fresh isolated directory, then launch `program` with `args` from
/// that directory.
#[derive(Debug, PartialEq, Eq)]
pub struct ExecutionPlan {
    /// The executable, element 0 of the command.
    pub program: String,
    /// The remaining command elements, in order.
    pub args: Vec<String>,
    /// The files to copy before launch, in input order.
    pub staged: Vec<StagedFile>,
}

/// What became of the attempt to launch the planned command.
#[derive(Debug, PartialEq, Eq)]
pub enum SpawnOutcome {
    /// The process could not be started at all.
    LaunchFailed { cause: String },
    /// The process ran to completion with the given exit classification and
    /// fully captured output streams.
    Exited { success: bool, stdout: Vec<u8>, stderr: String },
}

/// The views of a sequence of byte paths.
pub open spec fn byte_views(paths: Seq<Vec<u8>>) -> Seq<Seq<u8>> {
    Seq::new(paths.len(), |i: int| paths[i]@)
}

/// The views of a sequence of strings.
pub open spec fn string_views(strings: Seq<String>) -> Seq<Seq<char>> {
    Seq::new(strings.len(), |i: int| strings[i]@)
}

/// Mathematical image of the planning decision.
pub enum PlanView {
    /// The command sequence was empty.
    EmptyCommand,
    /// Some file does not resolve below the root; `path` is the first one.
    Violation { path: Seq<u8> },
    /// The invocation is valid and fully planned.
    Accepted { program: Seq<char>, args: Seq<Seq<char>>, staged: Seq<StagedFileView> },
    /// A failure that planning itself never produces.
    HostFailure,
}

/// Maps a planning result onto its mathematical image.
pub open spec fn plan_view(r: Result<ExecutionPlan, SandboxError>) -> PlanView {
    match r {
        Result::Ok(p) => PlanView::Accepted {
            program: p.program@,
            args: string_views(p.args@),
            staged: Seq::new(p.staged@.len(), |i: int| p.staged@[i]@),
        },
        Result::Err(SandboxError::InvalidCommand) => PlanView::EmptyCommand,
        Result::Err(SandboxError::PathContainmentViolation { path }) => PlanView::Violation {
            path: path@,
        },
        Result::Err(_) => PlanView::HostFailure,
    }
}

/// Every listed file resolves below `root`.
pub open spec fn all_under(files: Seq<Seq<u8>>, root: Seq<u8>) -> bool {
    forall|i: int| 0 <= i < files.len() ==> file_under_root(root, files[i])
}

/// `i` indexes the first file, in input order, that does not resolve below
/// `root`.
pub open spec fn is_first_violation(files: Seq<Seq<u8>>, root: Seq<u8>, i: int) -> bool {
    &&& 0 <= i < files.len()
    &&& !file_under_root(root, files[i])
    &&& forall|j: int| 0 <= j < i ==> file_under_root(root, files[j])
}

/// Index of the first containment violation.
pub open spec fn first_violation(files: Seq<Seq<u8>>, root: Seq<u8>) -> int {
    choose|i: int| is_first_violation(files, root, i)
}

/// At most one index is the first violation.
pub proof fn lemma_first_violation_unique(files: Seq<Seq<u8>>, root: Seq<u8>, i1: int, i2: int)
    requires
        is_first_violation(files, root, i1),
        is_first_violation(files, root, i2),
    ensures
        i1 == i2,
{
    if i1 < i2 {
        assert(file_under_root(root, files[i1]));
    }
    if i2 < i1 {
        assert(file_under_root(root, files[i2]));
    }
}

/// When any file violates containment, a first violation exists.
pub proof fn lemma_first_violation_exists(files: Seq<Seq<u8>>, root: Seq<u8>, k: int)
    requires
        0 <= k < files.len(),
        !file_under_root(root, files[k]),
    ensures
        exists|i: int| is_first_violation(files, root, i),
    decreases k,
{
    if forall|j: int| 0 <= j < k ==> file_under_root(root, files[j]) {
        assert(is_first_violation(files, root, k));
    } else {
        let j = choose|j: int| 0 <= j < k && !file_under_root(root, files[j]);
        lemma_first_violation_exists(files, root, j);
    }
}

/// The staging owed for `files` under `root`: each file, in input order, at
/// its path relative to the root, and nothing else.
pub open spec fn staged_views(files: Seq<Seq<u8>>, root: Seq<u8>) -> Seq<StagedFileView> {
    Seq::new(
        files.len(),
        |i: int| StagedFileView { source: files[i], dest_rel: rel_suffix(root, files[i]) },
    )
}

/// The whole planning decision as a function of the inputs: an empty command
/// is rejected; otherwise the first containment violation, in input order,
/// fails the whole invocation before any staging; otherwise the accepted
/// plan runs element 0 of the command with the remaining elements as
/// arguments and stages every listed file at its root-relative path.
pub open spec fn plan_spec(command: Seq<Seq<char>>, files: Seq<Seq<u8>>, root: Seq<u8>) -> PlanView {
    if command.len() == 0 {
        PlanView::EmptyCommand
    } else if !all_under(files, root) {
        PlanView::Violation { path: files[first_violation(files, root)] }
    } else {
        PlanView::Accepted {
            program: command[0],
            args: command.drop_first(),
            staged: staged_views(files, root),
        }
    }
}

/// Mathematical image of a spawn outcome.
pub enum OutcomeView {
    /// The process could not be started at all.
    LaunchFailed { cause: Seq<char> },
    /// The process ran to completion.
    Exited { success: bool, stdout: Seq<u8>, stderr: Seq<char> },
}

/// Maps a spawn outcome onto its mathematical image.
pub open spec fn outcome_view(o: SpawnOutcome) -> OutcomeView {
    match o {
        SpawnOutcome::LaunchFailed { cause } => OutcomeView::LaunchFailed { cause: cause@ },
        SpawnOutcome::Exited { success, stdout, stderr } => OutcomeView::Exited {
            success,
            stdout: stdout@,
            stderr: stderr@,
        },
    }
}

/// Mathematical image of a classified result.
pub enum RunView {
    /// The command ran and exited successfully; the captured standard output
    /// is returned in full.
    Success { stdout: Seq<u8> },
    /// The process could not be started at all.
    LaunchFailure { cause: Seq<char> },
    /// The command ran and exited unsuccessfully; the diagnostic is the
    /// captured standard error verbatim.
    CommandFailure { diagnostic: Seq<char> },
    /// A result that classification never produces.
    OtherFailure,
}

/// Maps a classified result onto its mathematical image.
pub open spec fn run_view(r: Result<Vec<u8>, SandboxError>) -> RunView {
    match r {
        Result::Ok(stdout) => RunView::Success { stdout: stdout@ },
        Result::Err(SandboxError::ProcessLaunchFailed { cause }) => RunView::LaunchFailure {
            cause: cause@,
        },
        Result::Err(SandboxError::CommandFailed { diagnostic }) => RunView::CommandFailure {
            diagnostic: diagnostic@,
        },
        Result::Err(_) => RunView::OtherFailure,
    }
}

/// The classification owed for each outcome: a launch failure stays distinct
/// from an unsuccessful exit; a successful exit returns the captured
/// standard output; an unsuccessful exit fails with the captured standard
/// error, verbatim, as the diagnostic.
pub open spec fn classify_spec(o: OutcomeView) -> RunView {
    match o {
        OutcomeView::LaunchFailed { cause } => RunView::LaunchFailure { cause },
        OutcomeView::Exited { success, stdout, stderr } => if success {
            RunView::Success { stdout }
        } else {
            RunView::CommandFailure { diagnostic: stderr }
        },
    }
}

/// A sandboxed command runner, split into the two decisions the host carries
/// out around its filesystem and process work: planning before the launch
/// and classification after it.
pub trait CommandExecutor {
    /// Validates the invocation against the containment boundary
    /// `working_dir` and produces the staging-and-launch plan.
    fn plan_execution(
        &self,
        command: &Vec<String>,
        files: &Vec<Vec<u8>>,
        working_dir: &Vec<u8>,
    ) -> (r: Result<ExecutionPlan, SandboxError>)
        ensures
            plan_view(r) == plan_spec(string_views(command@), byte_views(files@), working_dir@),
    ;

    /// Classifies what became of the launched command.
    fn classify_outcome(&self, outcome: SpawnOutcome) -> (r: Result<Vec<u8>, SandboxError>)
        ensures
            run_view(r) == classify_spec(outcome_view(outcome)),
    ;
}

/// Runs commands below a fresh isolated directory on a Linux host, bounded
/// by the working-directory root given at construction.
pub struct LinuxCommandExecutor {
    /// The containment boundary every input file is validated against.
    pub working_dir_root: Vec<u8>,
}

impl LinuxCommandExecutor {
    /// Creates an executor bounded by `working_dir_root`.
    pub fn new(working_dir_root: Vec<u8>) -> (r: LinuxCommandExecutor)
        ensures
            r.working_dir_root@ == working_dir_root@,
    {
        LinuxCommandExecutor { working_dir_root }
    }
}

/// Copies a byte path.
fn clone_bytes(v: &Vec<u8>) -> (r: Vec<u8>)
    ensures
        r@ == v@,
{
    let mut r: Vec<u8> = Vec::new();
    let mut i: usize = 0;
    while i < v.len()
        invariant
            0 <= i <= v@.len(),
            r@ == v@.take(i as int),
        decreases v@.len() - i,
    {
        r.push(v[i]);
        proof {
            assert(v@.take(i as int + 1) =~= v@.take(i as int).push(v@[i as int]));
        }
        i += 1;
    }
    proof {
        assert(r@ =~= v@);
    }
    r
}

impl CommandExecutor for LinuxCommandExecutor {
    fn plan_execution(
        &self,
        command: &Vec<String>,
        files: &Vec<Vec<u8>>,
        working_dir: &Vec<u8>,
    ) -> (r: Result<ExecutionPlan, SandboxError>) {
        let ghost cv: Seq<Seq<char>> = string_views(command@);
        let ghost fv: Seq<Seq<u8>> = byte_views(files@);
        let ghost root: Seq<u8> = working_dir@;
        if command.len() == 0 {
            return Err(SandboxError::InvalidCommand);
        }
        let mut staged: Vec<StagedFile> = Vec::new();
        let mut idx: usize = 0;
        while idx < files.len()
            invariant
                0 <= idx <= files@.len(),
                command@.len() > 0,
                cv == string_views(command@),
                fv == byte_views(files@),
                root == working_dir@,
                forall|j: int| 0 <= j < idx ==> file_under_root(root, fv[j]),
                staged@.len() == idx,
                forall|j: int|
                    0 <= j < idx ==> #[trigger] staged@[j]@ == (StagedFileView {
                        source: fv[j],
                        dest_rel: rel_suffix(root, fv[j]),
                    }),
            decreases files@.len() - idx,
        {
            let file = &files[idx];
            proof {
                assert(fv[idx as int] == files@[idx as int]@);
            }
            match strip_root(file, working_dir) {
                Option::Some(rel) => {
                    let source = clone_bytes(file);
                    staged.push(StagedFile { source, dest_rel: rel });
                },
                Option::None => {
                    let path = clone_bytes(file);
                    proof {
                        assert(is_first_violation(fv, root, idx as int));
                        assert(!all_under(fv, root));
                        assert(is_first_violation(fv, root, first_violation(fv, root)));
                        lemma_first_violation_unique(
                            fv,
                            root,
                            idx as int,
                            first_violation(fv, root),
                        );
                    }
                    return Err(SandboxError::PathContainmentViolation { path });
                },
            }
            idx += 1;
        }
        assert(all_under(fv, root));
        let program = command[0].clone();
        let mut args: Vec<String> = Vec::new();
        let mut k: usize = 1;
        while k < command.len()
            invariant
                1 <= k <= command@.len(),
                cv == string_views(command@),
                args@.len() == k - 1,
                forall|j: int| 0 <= j < k - 1 ==> #[trigger] args@[j]@ == cv[j + 1],
            decreases command@.len() - k,
        {
            args.push(command[k].clone());
            k += 1;
        }
        let plan = ExecutionPlan { program, args, staged };
        proof {
            assert(plan.program@ == cv[0]);
            assert(string_views(plan.args@) =~= cv.drop_first());
            assert(Seq::new(plan.staged@.len(), |i: int| plan.staged@[i]@) =~= staged_views(
                fv,
                root,
            ));
        }
        Ok(plan)
    }

    fn classify_outcome(&self, outcome: SpawnOutcome) -> (r: Result<Vec<u8>, SandboxError>) {
        match outcome {
            SpawnOutcome::LaunchFailed { cause } => Err(
                SandboxError::ProcessLaunchFailed { cause },
            ),
            SpawnOutcome::Exited { success, stdout, stderr } => {
                if success {
                    Ok(stdout)
                } else {
                    Err(SandboxError::CommandFailed { diagnostic: stderr })
                }
            },
        }
    }
}

} // verus!
