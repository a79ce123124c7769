//! Laws of the executor, stated over the same spec functions its contracts
//! use.

use crate::executor::{
    all_under, classify_spec, first_violation, is_first_violation, lemma_first_violation_exists,
    plan_spec, staged_views, OutcomeView, PlanView, RunView,
};
use crate::paths::{file_under_root, is_normal_rel, lemma_rel_suffix_normal, rel_suffix};
use vstd::prelude::*;

verus! {

/// Containment is enforced: whenever any listed file does not resolve below
/// the working-directory root, planning rejects the whole invocation with a
/// containment violation naming the first offending file in input order, so
/// no staging plan — and with it no filesystem work — is ever handed to the
/// host.
pub proof fn lemma_containment_enforced(
    command: Seq<Seq<char>>,
    files: Seq<Seq<u8>>,
    root: Seq<u8>,
    k: int,
)
    requires
        command.len() > 0,
        0 <= k < files.len(),
        !file_under_root(root, files[k]),
    ensures
        ({
            &&& plan_spec(command, files, root) matches PlanView::Violation { path }
            &&& exists|i: int| is_first_violation(files, root, i) && files[i] == path
        }),
{
    assert(!all_under(files, root));
    lemma_first_violation_exists(files, root, k);
    let i = first_violation(files, root);
    assert(is_first_violation(files, root, i));
}

/// Staging is exact: for a valid invocation the accepted plan stages every
/// listed file, in input order, at its path relative to the root, and
/// nothing else.
pub proof fn lemma_staging_exact(command: Seq<Seq<char>>, files: Seq<Seq<u8>>, root: Seq<u8>)
    requires
        command.len() > 0,
        all_under(files, root),
    ensures
        ({
            &&& plan_spec(command, files, root) matches PlanView::Accepted { program, args, staged }
            &&& program == command[0]
            &&& args == command.drop_first()
            &&& staged.len() == files.len()
            &&& forall|i: int| #![trigger staged[i]]
                0 <= i < files.len() ==> staged[i].source == files[i] && staged[i].dest_rel
                    == rel_suffix(root, files[i])
        }),
{
}

/// Staging cannot escape: every destination in an accepted plan is a
/// normalized relative path — non-empty, not beginning with the separator
/// and free of `.` and `..` components — so resolving it below the fresh
/// isolated directory stays inside that directory, and the invocation
/// mutates nothing outside it.
pub proof fn lemma_staged_destinations_stay_inside(
    command: Seq<Seq<char>>,
    files: Seq<Seq<u8>>,
    root: Seq<u8>,
)
    requires
        command.len() > 0,
        all_under(files, root),
    ensures
        ({
            &&& plan_spec(command, files, root) matches PlanView::Accepted { staged, .. }
            &&& forall|i: int|
                0 <= i < staged.len() ==> is_normal_rel(#[trigger] staged[i].dest_rel)
        }),
{
    lemma_staging_exact(command, files, root);
    let staged = staged_views(files, root);
    assert forall|i: int| 0 <= i < staged.len() implies is_normal_rel(
        #[trigger] staged[i].dest_rel,
    ) by {
        assert(file_under_root(root, files[i]));
        lemma_rel_suffix_normal(root, files[i]);
    }
}

/// Invocations are deterministic: the plan and the classification are
/// functions of the inputs alone, so repeated invocations with identical
/// inputs — and identical spawn outcomes — make identical decisions, and no
/// invocation leaks state into a later one.
pub proof fn lemma_invocation_deterministic(
    command: Seq<Seq<char>>,
    files: Seq<Seq<u8>>,
    root: Seq<u8>,
    outcome: OutcomeView,
    p1: PlanView,
    p2: PlanView,
    r1: RunView,
    r2: RunView,
)
    requires
        p1 == plan_spec(command, files, root),
        p2 == plan_spec(command, files, root),
        r1 == classify_spec(outcome),
        r2 == classify_spec(outcome),
    ensures
        p1 == p2,
        r1 == r2,
{
}

} // verus!
