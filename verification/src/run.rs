//! The decisions of `prek run`: which hooks run, how their outcomes add up to
//! a project's and a run's result, and what the run hands to its hooks.

use vstd::prelude::*;

use crate::config::{Language, Stage, stage_name};
use crate::partition::{group_views, key_groups, partition_hooks};
use crate::report::{no_hooks_for_stage_message, no_hooks_for_stage_text, no_hooks_message, no_hooks_text};
use crate::text::owned;

verus! {

/// How running one hook turned out.
#[derive(Debug, Clone, Copy, PartialEq, Eq, Structural)]
pub enum RunStatus {
    Success,
    Failed,
    Skipped,
    Unimplemented,
}

impl RunStatus {
    pub fn from_bool(success: bool) -> (r: Self)
        ensures
            r == (if success {
                RunStatus::Success
            } else {
                RunStatus::Failed
            }),
    {
        if success {
            RunStatus::Success
        } else {
            RunStatus::Failed
        }
    }

    /// Whether the outcome counts as a pass: everything but a failure.
    pub fn as_bool(&self) -> (r: bool)
        ensures
            r == (*self != RunStatus::Failed),
    {
        match self {
            RunStatus::Success | RunStatus::Skipped | RunStatus::Unimplemented => true,
            RunStatus::Failed => false,
        }
    }

    pub fn is_unimplemented(&self) -> (r: bool)
        ensures
            r == (*self == RunStatus::Unimplemented),
    {
        match self {
            RunStatus::Unimplemented => true,
            _ => false,
        }
    }
}

/// A status made from a success flag gives the flag back, and is never the
/// status of an unimplemented language.
pub proof fn lemma_run_status_bool_roundtrip(success: bool)
    ensures
        (if success {
            RunStatus::Success
        } else {
            RunStatus::Failed
        }) != RunStatus::Failed <==> success,
        (if success {
            RunStatus::Success
        } else {
            RunStatus::Failed
        }) != RunStatus::Unimplemented,
{
}

/// The exit status of a run.
#[derive(Debug, Clone, Copy, PartialEq, Eq, Structural)]
pub enum ExitStatus {
    Success,
    Failure,
}

/// The outcome of running the hooks of one project.
#[derive(Debug, Clone, Copy, PartialEq, Eq, Structural)]
pub struct ProjectRunSummary {
    pub success: bool,
    pub file_modified: bool,
    pub has_unimplemented: bool,
    pub abort: bool,
}

/// The summary after one more hook: a failure clears success, a file change
/// or an unimplemented language is remembered, and the project aborts on a
/// failure when the project or the hook asks to stop at the first failure.
pub open spec fn recorded(
    s: ProjectRunSummary,
    status: RunStatus,
    file_modified: bool,
    fail_fast: bool,
    hook_fail_fast: bool,
) -> ProjectRunSummary {
    ProjectRunSummary {
        success: s.success && status != RunStatus::Failed,
        file_modified: s.file_modified || file_modified,
        has_unimplemented: s.has_unimplemented || status == RunStatus::Unimplemented,
        abort: s.abort || (status == RunStatus::Failed && (fail_fast || hook_fail_fast)),
    }
}

impl ProjectRunSummary {
    /// Before any hook ran.
    pub fn new() -> (r: Self)
        ensures
            r == (ProjectRunSummary {
                success: true,
                file_modified: false,
                has_unimplemented: false,
                abort: false,
            }),
    {
        ProjectRunSummary { success: true, file_modified: false, has_unimplemented: false, abort: false }
    }

    /// Adds the outcome of one hook. Returns whether the remaining hooks of
    /// the project are to be skipped: the hook failed and either the project
    /// or the hook asks to stop at the first failure.
    pub fn record(
        &mut self,
        status: RunStatus,
        file_modified: bool,
        fail_fast: bool,
        hook_fail_fast: bool,
    ) -> (stop: bool)
        ensures
            *final(self) == recorded(*old(self), status, file_modified, fail_fast, hook_fail_fast),
            final(self).success == (old(self).success && status != RunStatus::Failed),
            final(self).file_modified == (old(self).file_modified || file_modified),
            final(self).has_unimplemented == (old(self).has_unimplemented || status
                == RunStatus::Unimplemented),
            final(self).abort == (old(self).abort || stop),
            stop == (status == RunStatus::Failed && (fail_fast || hook_fail_fast)),
    {
        self.file_modified = self.file_modified || file_modified;
        self.has_unimplemented = self.has_unimplemented || status.is_unimplemented();
        let hook_success = status.as_bool();
        self.success = self.success && hook_success;
        if !hook_success && (fail_fast || hook_fail_fast) {
            self.abort = true;
            true
        } else {
            false
        }
    }
}

/// What recording one hook does to a project's summary: only a failed hook
/// clears success, so a skipped hook or one of an unimplemented language
/// leaves it as it was; a file change is remembered; an unimplemented
/// language is remembered; and the project aborts exactly when the hook
/// failed and the project or the hook stops at the first failure.
pub proof fn lemma_recorded_outcome(
    s: ProjectRunSummary,
    status: RunStatus,
    file_modified: bool,
    fail_fast: bool,
    hook_fail_fast: bool,
)
    ensures
        recorded(s, status, file_modified, fail_fast, hook_fail_fast).success == (s.success
            && status != RunStatus::Failed),
        status == RunStatus::Skipped || status == RunStatus::Unimplemented || status
            == RunStatus::Success ==> recorded(
            s,
            status,
            file_modified,
            fail_fast,
            hook_fail_fast,
        ).success == s.success,
        recorded(s, status, file_modified, fail_fast, hook_fail_fast).file_modified == (
        s.file_modified || file_modified),
        recorded(s, status, file_modified, fail_fast, hook_fail_fast).has_unimplemented == (
        s.has_unimplemented || status == RunStatus::Unimplemented),
        recorded(s, status, file_modified, fail_fast, hook_fail_fast).abort == (s.abort || (
        status == RunStatus::Failed && (fail_fast || hook_fail_fast))),
{
}

/// The summary after the hooks' outcomes are recorded in turn from `s`:
/// each outcome is a status, whether the hook modified files, and whether
/// the hook stops at its first failure.
pub open spec fn summary_after(
    s: ProjectRunSummary,
    outcomes: Seq<(RunStatus, bool, bool)>,
    fail_fast: bool,
) -> ProjectRunSummary
    decreases outcomes.len(),
{
    if outcomes.len() == 0 {
        s
    } else {
        let o = outcomes.last();
        recorded(summary_after(s, outcomes.drop_last(), fail_fast), o.0, o.1, fail_fast, o.2)
    }
}

/// A project whose summary starts passing passes exactly when none of its
/// hooks failed, whatever hooks were skipped or had an unimplemented
/// language; it records modified files exactly when some hook modified them.
pub proof fn lemma_project_passes_unless_a_hook_failed(
    outcomes: Seq<(RunStatus, bool, bool)>,
    fail_fast: bool,
)
    ensures
        ({
            let start = ProjectRunSummary {
                success: true,
                file_modified: false,
                has_unimplemented: false,
                abort: false,
            };
            &&& summary_after(start, outcomes, fail_fast).success <==> forall|i: int|
                0 <= i < outcomes.len() ==> #[trigger] outcomes[i].0 != RunStatus::Failed
            &&& summary_after(start, outcomes, fail_fast).file_modified <==> exists|i: int|
                0 <= i < outcomes.len() && #[trigger] outcomes[i].1
        }),
    decreases outcomes.len(),
{
    if outcomes.len() > 0 {
        let front = outcomes.drop_last();
        lemma_project_passes_unless_a_hook_failed(front, fail_fast);
        let n = outcomes.len() - 1;
        assert forall|i: int| 0 <= i < front.len() implies #[trigger] front[i] == outcomes[i] by {}
        let start = ProjectRunSummary {
            success: true,
            file_modified: false,
            has_unimplemented: false,
            abort: false,
        };
        if summary_after(start, outcomes, fail_fast).success {
            assert forall|i: int| 0 <= i < outcomes.len() implies #[trigger] outcomes[i].0
                != RunStatus::Failed by {
                if i < n {
                    assert(front[i] == outcomes[i]);
                }
            }
        }
        if forall|i: int| 0 <= i < outcomes.len() ==> #[trigger] outcomes[i].0 != RunStatus::Failed {
            assert forall|i: int| 0 <= i < front.len() implies #[trigger] front[i].0
                != RunStatus::Failed by {
                assert(front[i] == outcomes[i]);
            }
            assert(outcomes[n].0 != RunStatus::Failed);
        }
        if summary_after(start, outcomes, fail_fast).file_modified {
            if !outcomes[n].1 {
                let i = choose|i: int| 0 <= i < front.len() && #[trigger] front[i].1;
                assert(outcomes[i].1);
            }
        }
        if exists|i: int| 0 <= i < outcomes.len() && #[trigger] outcomes[i].1 {
            let i = choose|i: int| 0 <= i < outcomes.len() && #[trigger] outcomes[i].1;
            if i < n {
                assert(front[i].1);
            }
        }
    }
}

/// A project only aborts after a hook failed: a summary that never aborted
/// without a failure keeps so whatever hook outcome it records.
pub proof fn lemma_abort_implies_failure(
    s: ProjectRunSummary,
    status: RunStatus,
    file_modified: bool,
    fail_fast: bool,
    hook_fail_fast: bool,
)
    requires
        s.abort ==> !s.success,
    ensures
        recorded(s, status, file_modified, fail_fast, hook_fail_fast).abort ==> !recorded(
            s,
            status,
            file_modified,
            fail_fast,
            hook_fail_fast,
        ).success,
{
}

/// Once a project has failed, no later hook outcome makes it pass again.
pub proof fn lemma_failure_is_final(
    s: ProjectRunSummary,
    status: RunStatus,
    file_modified: bool,
    fail_fast: bool,
    hook_fail_fast: bool,
)
    requires
        !s.success,
    ensures
        !recorded(s, status, file_modified, fail_fast, hook_fail_fast).success,
{
}

/// Whether a project stops at its first failing hook: when the run or the
/// project's configuration asks for it.
pub fn project_fail_fast(global_fail_fast: bool, config_fail_fast: Option<bool>) -> (r: bool)
    ensures
        r == (global_fail_fast || config_fail_fast == Some(true)),
{
    global_fail_fast || match config_fail_fast {
        Some(b) => b,
        None => false,
    }
}

/// The outcome of a run, gathered project by project.
#[derive(Debug, Clone, Copy, PartialEq, Eq, Structural)]
pub struct RunTotals {
    pub success: bool,
    pub file_modified: bool,
    pub has_unimplemented: bool,
    pub abort_remaining: bool,
}

impl RunTotals {
    pub fn new() -> (r: Self)
        ensures
            r == (RunTotals {
                success: true,
                file_modified: false,
                has_unimplemented: false,
                abort_remaining: false,
            }),
    {
        RunTotals {
            success: true,
            file_modified: false,
            has_unimplemented: false,
            abort_remaining: false,
        }
    }

    /// Adds the outcome of one project; once a project aborted, the projects
    /// after its group are not run.
    pub fn absorb(&mut self, summary: &ProjectRunSummary)
        ensures
            final(self).success == (old(self).success && summary.success),
            final(self).file_modified == (old(self).file_modified || summary.file_modified),
            final(self).has_unimplemented == (old(self).has_unimplemented
                || summary.has_unimplemented),
            final(self).abort_remaining == (old(self).abort_remaining || summary.abort),
            *final(self) == totals_after(*old(self), seq![*summary]),
    {
        assert(seq![*summary].drop_last() =~= Seq::<ProjectRunSummary>::empty());
        self.success = self.success && summary.success;
        self.file_modified = self.file_modified || summary.file_modified;
        self.has_unimplemented = self.has_unimplemented || summary.has_unimplemented;
        if summary.abort {
            self.abort_remaining = true;
        }
        assert(totals_after(*old(self), Seq::<ProjectRunSummary>::empty()) == *old(self));
        assert(seq![*summary].last() == *summary);
    }

    /// Whether the next group of projects runs: only while no project has
    /// aborted the run.
    pub fn runs_next_group(&self) -> (r: bool)
        ensures
            r == !self.abort_remaining,
    {
        !self.abort_remaining
    }

    /// Whether the next project of the current group runs: always when the
    /// group runs side by side, where every project starts together;
    /// otherwise only while no project has aborted the run.
    pub fn runs_next_project(&self, in_parallel: bool) -> (r: bool)
        ensures
            r == (in_parallel || !self.abort_remaining),
    {
        in_parallel || !self.abort_remaining
    }

    /// Whether the changes that hooks made are shown: the run failed, the
    /// user asked for it, and some hook modified files.
    pub fn show_diff(&self, show_diff_on_failure: bool) -> (r: bool)
        ensures
            r == (!self.success && show_diff_on_failure && self.file_modified),
    {
        !self.success && show_diff_on_failure && self.file_modified
    }

    pub fn exit_status(&self) -> (r: ExitStatus)
        ensures
            r == (if self.success {
                ExitStatus::Success
            } else {
                ExitStatus::Failure
            }),
    {
        if self.success {
            ExitStatus::Success
        } else {
            ExitStatus::Failure
        }
    }
}

/// The totals after the outcomes of `summaries` are added in turn to `t`.
pub open spec fn totals_after(t: RunTotals, summaries: Seq<ProjectRunSummary>) -> RunTotals
    decreases summaries.len(),
{
    if summaries.len() == 0 {
        t
    } else {
        let before = totals_after(t, summaries.drop_last());
        let s = summaries.last();
        RunTotals {
            success: before.success && s.success,
            file_modified: before.file_modified || s.file_modified,
            has_unimplemented: before.has_unimplemented || s.has_unimplemented,
            abort_remaining: before.abort_remaining || s.abort,
        }
    }
}

/// Once any project has aborted, no later group runs: after the outcomes of
/// any projects are added, among them one that aborted, the totals say not
/// to run the next group, and the run fails if that project failed.
pub proof fn lemma_no_group_after_abort(t: RunTotals, summaries: Seq<ProjectRunSummary>, i: int)
    requires
        0 <= i < summaries.len(),
        summaries[i].abort,
    ensures
        totals_after(t, summaries).abort_remaining,
        !summaries[i].success ==> !totals_after(t, summaries).success,
    decreases summaries.len(),
{
    if i < summaries.len() - 1 {
        lemma_no_group_after_abort(t, summaries.drop_last(), i);
    }
}

/// In a group that does not run side by side, no project after one that
/// aborted runs: once the outcomes up to the `j`-th project are added, among
/// them an aborting one, the totals do not run the `j`-th project.
pub proof fn lemma_no_project_after_abort_in_serial_group(
    t: RunTotals,
    summaries: Seq<ProjectRunSummary>,
    i: int,
    j: int,
)
    requires
        0 <= i < j <= summaries.len(),
        summaries[i].abort,
    ensures
        totals_after(t, summaries.take(j)).abort_remaining,
{
    assert(summaries.take(j)[i] == summaries[i]);
    lemma_no_group_after_abort(t, summaries.take(j), i);
}

/// Whether the projects of a group run side by side: when the workspace
/// allows it and the group holds more than one project. Side by side, a
/// project that aborts does not stop the others of its group.
pub fn group_in_parallel(parallel_projects: bool, project_count: usize) -> (r: bool)
    ensures
        r == (parallel_projects && project_count > 1),
{
    parallel_projects && project_count > 1
}

/// Before a hook runs: skipped when it has no files and need not run anyway,
/// marked unimplemented when its language is not supported yet; `None` when
/// it is to run.
pub fn precheck_hook(has_files: bool, always_run: bool, language_supported: bool) -> (r: Option<
    RunStatus,
>)
    ensures
        r == (if !has_files && !always_run {
            Some(RunStatus::Skipped)
        } else if !language_supported {
            Some(RunStatus::Unimplemented)
        } else {
            None
        }),
{
    if !has_files && !always_run {
        Some(RunStatus::Skipped)
    } else if !language_supported {
        Some(RunStatus::Unimplemented)
    } else {
        None
    }
}

/// Whether running the hook changed the working tree: the diff before and after differ.
pub fn diff_changed(before: &Vec<u8>, after: &Vec<u8>) -> (r: bool)
    ensures
        r == (before@ != after@),
{
    if before.len() != after.len() {
        return true;
    }
    let mut i: usize = 0;
    while i < before.len()
        invariant
            before@.len() == after@.len(),
            i <= before@.len(),
            forall|j: int| 0 <= j < i ==> before@[j] == after@[j],
        decreases before.len() - i,
    {
        if before[i] != after[i] {
            return true;
        }
        i = i + 1;
    }
    assert(before@ =~= after@);
    false
}

/// A hook passed when it exited with status zero and left the files alone.
pub fn hook_succeeded(exit_code: i32, file_modified: bool) -> (r: bool)
    ensures
        r == (exit_code == 0 && !file_modified),
{
    exit_code == 0 && !file_modified
}

/// Whether the details of a hook's run are printed: when asked for, by the
/// run or by the hook, or when the hook failed.
pub fn show_details(verbose: bool, hook_verbose: bool, success: bool) -> (r: bool)
    ensures
        r == (verbose || hook_verbose || !success),
{
    verbose || hook_verbose || !success
}

/// The order in which shuffling `n` items with a `StdRng` seeded with `seed`
/// leaves them: position `k` then holds the item that stood at `order[k]`.
pub uninterp spec fn shuffle_order(seed: u64, n: nat) -> Seq<usize>;

/// `order` lists each of the positions below `n` once.
pub open spec fn is_permutation(order: Seq<usize>, n: nat) -> bool {
    &&& order.len() == n
    &&& order.no_duplicates()
    &&& forall|k: int| 0 <= k < n ==> #[trigger] order[k] < n
}

/// `items` rearranged so that position `k` holds the item at `order[k]`.
pub open spec fn rearranged<T>(items: Seq<T>, order: Seq<usize>) -> Seq<T> {
    Seq::new(order.len(), |k: int| items[order[k] as int])
}

/// Shuffles `items` with a `StdRng` seeded with `seed`.
///
/// Trusted: seeds `rand::rngs::StdRng` with `SeedableRng::seed_from_u64` and
/// calls `SliceRandom::shuffle`. Its source only swaps items, at positions
/// drawn from the generator and bounded by the number of items, so the items
/// come out rearranged by a permutation that depends on the seed and their
/// number alone; which permutation that is, is named and not stated.
#[verifier::external_body]
fn seeded_shuffle<T>(items: &mut Vec<T>, seed: u64)
    ensures
        final(items)@ == rearranged(old(items)@, shuffle_order(seed, old(items)@.len()))
            && is_permutation(shuffle_order(seed, old(items)@.len()), old(items)@.len()),
{
    let mut rng = <rand::rngs::StdRng as rand::SeedableRng>::seed_from_u64(seed);
    rand::seq::SliceRandom::shuffle(items.as_mut_slice(), &mut rng)
}

/// A permutation of the positions below `n` holds each of them.
proof fn lemma_permutation_covers(order: Seq<usize>, n: nat)
    requires
        is_permutation(order, n),
        n <= usize::MAX,
    ensures
        forall|p: int| 0 <= p < n ==> #[trigger] order.contains(p as usize),
{
    order.unique_seq_to_set();
    vstd::seq_lib::seq_to_set_is_finite(order);
    let m = n as usize;
    let full = Set::<usize>::range(0usize, m);
    vstd::set_lib::range_set_properties::<usize>(0usize, m);
    assert forall|x: usize| order.to_set().contains(x) implies full.contains(x) by {
        let k = choose|k: int| 0 <= k < order.len() && order[k] == x;
        assert(order[k] < n);
    }
    vstd::set_lib::lemma_subset_equality(order.to_set(), full);
    assert forall|p: int| 0 <= p < n implies #[trigger] order.contains(p as usize) by {
        assert(full.contains(p as usize));
        assert(order.to_set().contains(p as usize));
    }
}

/// Rearranging items by a permutation keeps each item as many times as it
/// occurs: no file is lost or repeated by the shuffle.
pub proof fn lemma_rearranged_keeps_items<T>(items: Seq<T>, order: Seq<usize>)
    requires
        is_permutation(order, items.len()),
        items.len() <= usize::MAX,
    ensures
        rearranged(items, order).to_multiset() == items.to_multiset(),
    decreases items.len(),
{
    broadcast use vstd::multiset::group_multiset_axioms;

    let n = items.len();
    let t = rearranged(items, order);
    if n == 0 {
        assert(t =~= items);
    } else {
        lemma_permutation_covers(order, n);
        let last = (n - 1) as usize;
        assert(order.contains(((n - 1) as int) as usize));
        let m = choose|m: int| 0 <= m < order.len() && order[m] == last;
        let order2 = order.remove(m);
        let items2 = items.drop_last();
        assert forall|k: int| 0 <= k < n - 1 implies #[trigger] order2[k] < n - 1 by {
            if k < m {
                assert(order2[k] == order[k]);
                assert(order[k] != order[m]);
            } else {
                assert(order2[k] == order[k + 1]);
                assert(order[k + 1] != order[m]);
            }
        }
        assert(order2.no_duplicates()) by {
            assert forall|i: int, j: int|
                0 <= i < order2.len() && 0 <= j < order2.len() && i != j implies order2[i]
                != order2[j] by {
                let oi = if i < m {
                    i
                } else {
                    i + 1
                };
                let oj = if j < m {
                    j
                } else {
                    j + 1
                };
                assert(order2[i] == order[oi]);
                assert(order2[j] == order[oj]);
            }
        }
        lemma_rearranged_keeps_items(items2, order2);
        assert(t.remove(m) =~= rearranged(items2, order2)) by {
            assert forall|k: int| 0 <= k < n - 1 implies #[trigger] t.remove(m)[k] == rearranged(
                items2,
                order2,
            )[k] by {
                if k < m {
                    assert(order2[k] == order[k]);
                } else {
                    assert(order2[k] == order[k + 1]);
                }
            }
        }
        vstd::seq_lib::to_multiset_remove(t, m);
        assert(items2.push(items[n - 1]) =~= items);
        vstd::seq_lib::to_multiset_build(items2, items[n - 1]);
        vstd::seq_lib::to_multiset_contains(t, t[m]);
        assert(t.contains(t[m]));
        assert(t[m] == items[n - 1]);
        assert(t.to_multiset() =~= t.to_multiset().remove(t[m]).insert(t[m]));
    }
}

/// The seed of the file shuffle, fixed so that runs are repeatable.
pub const SHUFFLE_SEED: u64 = 1_542_676_187;

/// Shuffle the files so that they more evenly fill out the xargs
/// partitions, but do it deterministically in case a hook cares about ordering.
pub fn shuffle<T>(filenames: &mut Vec<T>)
    ensures
        final(filenames)@ == rearranged(
            old(filenames)@,
            shuffle_order(SHUFFLE_SEED, old(filenames)@.len()),
        ),
        final(filenames)@.to_multiset() == old(filenames)@.to_multiset(),
{
    seeded_shuffle(filenames, SHUFFLE_SEED);
    proof {
        assert(old(filenames)@.len() == old(filenames).len());
        lemma_rearranged_keeps_items(old(filenames)@, shuffle_order(SHUFFLE_SEED, old(filenames)@.len()));
    }
}

/// The files handed to a hook: all of them, shuffled, when it takes file
/// names, and none otherwise.
pub fn prepare_filenames<T>(filenames: Vec<T>, pass_filenames: bool) -> (r: Vec<T>)
    ensures
        pass_filenames ==> r@ == rearranged(filenames@, shuffle_order(SHUFFLE_SEED, filenames@.len())),
        pass_filenames ==> r@.to_multiset() == filenames@.to_multiset(),
        !pass_filenames ==> r@.len() == 0,
{
    if pass_filenames {
        let mut files = filenames;
        shuffle(&mut files);
        files
    } else {
        Vec::new()
    }
}

/// The arguments git passes to a hook, as `prek run` receives them.
#[derive(Debug, Clone, Default)]
pub struct RunExtraArgs {
    pub prepare_commit_message_source: Option<String>,
    pub commit_object_name: Option<String>,
    pub pre_rebase_upstream: Option<String>,
    pub pre_rebase_branch: Option<String>,
    pub local_branch: Option<String>,
    pub remote_branch: Option<String>,
    pub remote_name: Option<String>,
    pub remote_url: Option<String>,
    pub checkout_type: Option<String>,
    pub is_squash_merge: bool,
    pub rewrite_command: Option<String>,
    pub commit_msg_filename: Option<String>,
}

/// The variable `name` set to `value`, when there is a value.
pub open spec fn optional_var(name: Seq<char>, value: Option<Seq<char>>) -> Seq<(Seq<char>, Seq<char>)> {
    match value {
        Some(v) => seq![(name, v)],
        None => Seq::empty(),
    }
}

pub open spec fn opt_text(o: Option<String>) -> Option<Seq<char>> {
    match o {
        Some(s) => Some(s@),
        None => None,
    }
}

pub open spec fn opt_ref_text(o: Option<&String>) -> Option<Seq<char>> {
    match o {
        Some(s) => Some(s@),
        None => None,
    }
}

/// The environment `pre-commit` sets for other git hooks, in the order it sets it.
pub open spec fn run_env_vars(
    from_ref: Option<Seq<char>>,
    to_ref: Option<Seq<char>>,
    args: RunExtraArgs,
) -> Seq<(Seq<char>, Seq<char>)> {
    seq![("PRE_COMMIT"@, "1"@)] + optional_var(
        "PRE_COMMIT_COMMIT_MSG_SOURCE"@,
        opt_text(args.prepare_commit_message_source),
    ) + optional_var("PRE_COMMIT_COMMIT_OBJECT_NAME"@, opt_text(args.commit_object_name))
        + optional_var("PRE_COMMIT_ORIGIN"@, from_ref) + optional_var(
        "PRE_COMMIT_FROM_REF"@,
        from_ref,
    ) + optional_var("PRE_COMMIT_SOURCE"@, to_ref) + optional_var("PRE_COMMIT_TO_REF"@, to_ref)
        + optional_var("PRE_COMMIT_PRE_REBASE_UPSTREAM"@, opt_text(args.pre_rebase_upstream))
        + optional_var("PRE_COMMIT_PRE_REBASE_BRANCH"@, opt_text(args.pre_rebase_branch))
        + optional_var("PRE_COMMIT_LOCAL_BRANCH"@, opt_text(args.local_branch)) + optional_var(
        "PRE_COMMIT_REMOTE_BRANCH"@,
        opt_text(args.remote_branch),
    ) + optional_var("PRE_COMMIT_REMOTE_NAME"@, opt_text(args.remote_name)) + optional_var(
        "PRE_COMMIT_REMOTE_URL"@,
        opt_text(args.remote_url),
    ) + optional_var("PRE_COMMIT_CHECKOUT_TYPE"@, opt_text(args.checkout_type)) + optional_var(
        "PRE_COMMIT_SQUASH_MERGE"@,
        if args.is_squash_merge {
            Some("1"@)
        } else {
            None
        },
    ) + optional_var("PRE_COMMIT_REWRITE_COMMAND"@, opt_text(args.rewrite_command))
}

pub open spec fn var_texts(v: Seq<(String, String)>) -> Seq<(Seq<char>, Seq<char>)> {
    v.map_values(|p: (String, String)| (p.0@, p.1@))
}

/// A sequence holds what either of its two parts holds.
proof fn lemma_concat_contains<A>()
    ensures
        forall|a: Seq<A>, b: Seq<A>, x: A| #[trigger] (a + b).contains(x) <==> a.contains(x) || b.contains(x),
{
    assert forall|a: Seq<A>, b: Seq<A>, x: A| #[trigger] (a + b).contains(x) <==> a.contains(x)
        || b.contains(x) by {
        if (a + b).contains(x) {
            let k = choose|k: int| 0 <= k < (a + b).len() && (a + b)[k] == x;
            if k < a.len() {
                assert(a[k] == x);
            } else {
                assert(b[k - a.len()] == x);
            }
        }
        if a.contains(x) {
            let k = choose|k: int| 0 <= k < a.len() && a[k] == x;
            assert((a + b)[k] == x);
        }
        if b.contains(x) {
            let k = choose|k: int| 0 <= k < b.len() && b[k] == x;
            assert((a + b)[a.len() + k] == x);
        }
    }
}

/// A variable set when there is a value holds just that name and value.
proof fn lemma_optional_var_contains()
    ensures
        forall|name: Seq<char>, value: Option<Seq<char>>, p: (Seq<char>, Seq<char>)|
            #[trigger] optional_var(name, value).contains(p) <==> (p.0 == name && value == Some(p.1)),
{
    assert forall|name: Seq<char>, value: Option<Seq<char>>, p: (Seq<char>, Seq<char>)|
        #[trigger] optional_var(name, value).contains(p) <==> (p.0 == name && value == Some(p.1)) by {
        if value is Some {
            assert(optional_var(name, value)[0] == (name, value->0));
        }
    }
}

/// The environment a run hands to its hooks, variable by variable:
/// `PRE_COMMIT` is "1"; each `PRE_COMMIT_*` variable of a git argument is set
/// exactly when that argument is given, to that argument's value (the origin
/// and from-ref variables to the from-ref, the source and to-ref variables to
/// the to-ref); `PRE_COMMIT_SQUASH_MERGE` is "1" exactly for a squash merge.
pub proof fn lemma_env_vars_by_field(
    from_ref: Option<Seq<char>>,
    to_ref: Option<Seq<char>>,
    args: RunExtraArgs,
)
    ensures
        forall|v: Seq<char>|
            #![trigger run_env_vars(from_ref, to_ref, args).contains(("PRE_COMMIT"@, v))]
            run_env_vars(from_ref, to_ref, args).contains(("PRE_COMMIT"@, v)) <==> v == "1"@,
        forall|v: Seq<char>|
            #![trigger run_env_vars(from_ref, to_ref, args).contains(("PRE_COMMIT_COMMIT_MSG_SOURCE"@, v))]
            run_env_vars(from_ref, to_ref, args).contains(("PRE_COMMIT_COMMIT_MSG_SOURCE"@, v)) <==> opt_text(args.prepare_commit_message_source) == Some(v),
        forall|v: Seq<char>|
            #![trigger run_env_vars(from_ref, to_ref, args).contains(("PRE_COMMIT_COMMIT_OBJECT_NAME"@, v))]
            run_env_vars(from_ref, to_ref, args).contains(("PRE_COMMIT_COMMIT_OBJECT_NAME"@, v)) <==> opt_text(args.commit_object_name) == Some(v),
        forall|v: Seq<char>|
            #![trigger run_env_vars(from_ref, to_ref, args).contains(("PRE_COMMIT_ORIGIN"@, v))]
            run_env_vars(from_ref, to_ref, args).contains(("PRE_COMMIT_ORIGIN"@, v)) <==> from_ref == Some(v),
        forall|v: Seq<char>|
            #![trigger run_env_vars(from_ref, to_ref, args).contains(("PRE_COMMIT_FROM_REF"@, v))]
            run_env_vars(from_ref, to_ref, args).contains(("PRE_COMMIT_FROM_REF"@, v)) <==> from_ref == Some(v),
        forall|v: Seq<char>|
            #![trigger run_env_vars(from_ref, to_ref, args).contains(("PRE_COMMIT_SOURCE"@, v))]
            run_env_vars(from_ref, to_ref, args).contains(("PRE_COMMIT_SOURCE"@, v)) <==> to_ref == Some(v),
        forall|v: Seq<char>|
            #![trigger run_env_vars(from_ref, to_ref, args).contains(("PRE_COMMIT_TO_REF"@, v))]
            run_env_vars(from_ref, to_ref, args).contains(("PRE_COMMIT_TO_REF"@, v)) <==> to_ref == Some(v),
        forall|v: Seq<char>|
            #![trigger run_env_vars(from_ref, to_ref, args).contains(("PRE_COMMIT_PRE_REBASE_UPSTREAM"@, v))]
            run_env_vars(from_ref, to_ref, args).contains(("PRE_COMMIT_PRE_REBASE_UPSTREAM"@, v)) <==> opt_text(args.pre_rebase_upstream) == Some(v),
        forall|v: Seq<char>|
            #![trigger run_env_vars(from_ref, to_ref, args).contains(("PRE_COMMIT_PRE_REBASE_BRANCH"@, v))]
            run_env_vars(from_ref, to_ref, args).contains(("PRE_COMMIT_PRE_REBASE_BRANCH"@, v)) <==> opt_text(args.pre_rebase_branch) == Some(v),
        forall|v: Seq<char>|
            #![trigger run_env_vars(from_ref, to_ref, args).contains(("PRE_COMMIT_LOCAL_BRANCH"@, v))]
            run_env_vars(from_ref, to_ref, args).contains(("PRE_COMMIT_LOCAL_BRANCH"@, v)) <==> opt_text(args.local_branch) == Some(v),
        forall|v: Seq<char>|
            #![trigger run_env_vars(from_ref, to_ref, args).contains(("PRE_COMMIT_REMOTE_BRANCH"@, v))]
            run_env_vars(from_ref, to_ref, args).contains(("PRE_COMMIT_REMOTE_BRANCH"@, v)) <==> opt_text(args.remote_branch) == Some(v),
        forall|v: Seq<char>|
            #![trigger run_env_vars(from_ref, to_ref, args).contains(("PRE_COMMIT_REMOTE_NAME"@, v))]
            run_env_vars(from_ref, to_ref, args).contains(("PRE_COMMIT_REMOTE_NAME"@, v)) <==> opt_text(args.remote_name) == Some(v),
        forall|v: Seq<char>|
            #![trigger run_env_vars(from_ref, to_ref, args).contains(("PRE_COMMIT_REMOTE_URL"@, v))]
            run_env_vars(from_ref, to_ref, args).contains(("PRE_COMMIT_REMOTE_URL"@, v)) <==> opt_text(args.remote_url) == Some(v),
        forall|v: Seq<char>|
            #![trigger run_env_vars(from_ref, to_ref, args).contains(("PRE_COMMIT_CHECKOUT_TYPE"@, v))]
            run_env_vars(from_ref, to_ref, args).contains(("PRE_COMMIT_CHECKOUT_TYPE"@, v)) <==> opt_text(args.checkout_type) == Some(v),
        forall|v: Seq<char>|
            #![trigger run_env_vars(from_ref, to_ref, args).contains(("PRE_COMMIT_REWRITE_COMMAND"@, v))]
            run_env_vars(from_ref, to_ref, args).contains(("PRE_COMMIT_REWRITE_COMMAND"@, v)) <==> opt_text(args.rewrite_command) == Some(v),
        forall|v: Seq<char>|
            #![trigger run_env_vars(from_ref, to_ref, args).contains(("PRE_COMMIT_SQUASH_MERGE"@, v))]
            run_env_vars(from_ref, to_ref, args).contains(("PRE_COMMIT_SQUASH_MERGE"@, v)) <==> (
            args.is_squash_merge && v == "1"@),
{
    lemma_concat_contains::<(Seq<char>, Seq<char>)>();
    lemma_optional_var_contains();
    reveal_strlit("PRE_COMMIT");
    reveal_strlit("PRE_COMMIT_COMMIT_MSG_SOURCE");
    reveal_strlit("PRE_COMMIT_COMMIT_OBJECT_NAME");
    reveal_strlit("PRE_COMMIT_ORIGIN");
    reveal_strlit("PRE_COMMIT_FROM_REF");
    reveal_strlit("PRE_COMMIT_SOURCE");
    reveal_strlit("PRE_COMMIT_TO_REF");
    reveal_strlit("PRE_COMMIT_PRE_REBASE_UPSTREAM");
    reveal_strlit("PRE_COMMIT_PRE_REBASE_BRANCH");
    reveal_strlit("PRE_COMMIT_LOCAL_BRANCH");
    reveal_strlit("PRE_COMMIT_REMOTE_BRANCH");
    reveal_strlit("PRE_COMMIT_REMOTE_NAME");
    reveal_strlit("PRE_COMMIT_REMOTE_URL");
    reveal_strlit("PRE_COMMIT_CHECKOUT_TYPE");
    reveal_strlit("PRE_COMMIT_REWRITE_COMMAND");
    reveal_strlit("PRE_COMMIT_SQUASH_MERGE");
    reveal_strlit("1");
    assert("PRE_COMMIT"@.len() == 10);
    assert("PRE_COMMIT_COMMIT_MSG_SOURCE"@.len() == 28); assert("PRE_COMMIT_COMMIT_MSG_SOURCE"@[11] == 'C');
    assert("PRE_COMMIT_COMMIT_OBJECT_NAME"@.len() == 29); assert("PRE_COMMIT_COMMIT_OBJECT_NAME"@[11] == 'C');
    assert("PRE_COMMIT_ORIGIN"@.len() == 17); assert("PRE_COMMIT_ORIGIN"@[11] == 'O');
    assert("PRE_COMMIT_FROM_REF"@.len() == 19); assert("PRE_COMMIT_FROM_REF"@[11] == 'F');
    assert("PRE_COMMIT_SOURCE"@.len() == 17); assert("PRE_COMMIT_SOURCE"@[11] == 'S');
    assert("PRE_COMMIT_TO_REF"@.len() == 17); assert("PRE_COMMIT_TO_REF"@[11] == 'T');
    assert("PRE_COMMIT_PRE_REBASE_UPSTREAM"@.len() == 30); assert("PRE_COMMIT_PRE_REBASE_UPSTREAM"@[11] == 'P');
    assert("PRE_COMMIT_PRE_REBASE_BRANCH"@.len() == 28); assert("PRE_COMMIT_PRE_REBASE_BRANCH"@[11] == 'P');
    assert("PRE_COMMIT_LOCAL_BRANCH"@.len() == 23); assert("PRE_COMMIT_LOCAL_BRANCH"@[11] == 'L');
    assert("PRE_COMMIT_REMOTE_BRANCH"@.len() == 24); assert("PRE_COMMIT_REMOTE_BRANCH"@[11] == 'R');
    assert("PRE_COMMIT_REMOTE_NAME"@.len() == 22); assert("PRE_COMMIT_REMOTE_NAME"@[11] == 'R');
    assert("PRE_COMMIT_REMOTE_URL"@.len() == 21); assert("PRE_COMMIT_REMOTE_URL"@[11] == 'R');
    assert("PRE_COMMIT_CHECKOUT_TYPE"@.len() == 24); assert("PRE_COMMIT_CHECKOUT_TYPE"@[11] == 'C');
    assert("PRE_COMMIT_REWRITE_COMMAND"@.len() == 26); assert("PRE_COMMIT_REWRITE_COMMAND"@[11] == 'R');
    assert("PRE_COMMIT_SQUASH_MERGE"@.len() == 23); assert("PRE_COMMIT_SQUASH_MERGE"@[11] == 'S');
    assert(seq![("PRE_COMMIT"@, "1"@)] =~= optional_var("PRE_COMMIT"@, Some("1"@)));
}

fn push_var(out: &mut Vec<(String, String)>, name: &str, value: Option<&String>)
    ensures
        var_texts(final(out)@) == var_texts(old(out)@) + optional_var(name@, opt_ref_text(value)),
{
    match value {
        Some(v) => {
            out.push((owned(name), v.clone()));
            assert(var_texts(out@) =~= var_texts(old(out)@) + seq![(name@, v@)]);
        },
        None => {
            assert(var_texts(out@) =~= var_texts(old(out)@) + Seq::<(Seq<char>, Seq<char>)>::empty());
        },
    }
}

/// The environment variables that `pre-commit` sets for other git hooks,
/// and their values, in order.
pub fn env_vars_to_set(from_ref: Option<&String>, to_ref: Option<&String>, args: &RunExtraArgs) -> (r: Vec<
    (String, String),
>)
    ensures
        var_texts(r@) == run_env_vars(opt_ref_text(from_ref), opt_ref_text(to_ref), *args),
{
    let mut out: Vec<(String, String)> = Vec::new();
    let one = owned("1");
    push_var(&mut out, "PRE_COMMIT", Some(&one));
    assert(var_texts(out@) =~= seq![("PRE_COMMIT"@, "1"@)]);
    push_var(&mut out, "PRE_COMMIT_COMMIT_MSG_SOURCE", args.prepare_commit_message_source.as_ref());
    push_var(&mut out, "PRE_COMMIT_COMMIT_OBJECT_NAME", args.commit_object_name.as_ref());
    push_var(&mut out, "PRE_COMMIT_ORIGIN", from_ref);
    push_var(&mut out, "PRE_COMMIT_FROM_REF", from_ref);
    push_var(&mut out, "PRE_COMMIT_SOURCE", to_ref);
    push_var(&mut out, "PRE_COMMIT_TO_REF", to_ref);
    push_var(&mut out, "PRE_COMMIT_PRE_REBASE_UPSTREAM", args.pre_rebase_upstream.as_ref());
    push_var(&mut out, "PRE_COMMIT_PRE_REBASE_BRANCH", args.pre_rebase_branch.as_ref());
    push_var(&mut out, "PRE_COMMIT_LOCAL_BRANCH", args.local_branch.as_ref());
    push_var(&mut out, "PRE_COMMIT_REMOTE_BRANCH", args.remote_branch.as_ref());
    push_var(&mut out, "PRE_COMMIT_REMOTE_NAME", args.remote_name.as_ref());
    push_var(&mut out, "PRE_COMMIT_REMOTE_URL", args.remote_url.as_ref());
    push_var(&mut out, "PRE_COMMIT_CHECKOUT_TYPE", args.checkout_type.as_ref());
    if args.is_squash_merge {
        push_var(&mut out, "PRE_COMMIT_SQUASH_MERGE", Some(&one));
    } else {
        push_var(&mut out, "PRE_COMMIT_SQUASH_MERGE", None);
    }
    push_var(&mut out, "PRE_COMMIT_REWRITE_COMMAND", args.rewrite_command.as_ref());
    out
}

/// Whether `stages` holds `stage`.
fn stages_contain(stages: &Vec<Stage>, stage: Stage) -> (r: bool)
    ensures
        r == stages@.contains(stage),
{
    let mut i: usize = 0;
    while i < stages.len()
        invariant
            i <= stages@.len(),
            forall|j: int| 0 <= j < i ==> stages@[j] != stage,
        decreases stages.len() - i,
    {
        if stages[i] == stage {
            return true;
        }
        i = i + 1;
    }
    false
}

pub open spec fn stage_lists(hook_stages: Seq<Vec<Stage>>) -> Seq<Seq<Stage>> {
    hook_stages.map_values(|v: Vec<Stage>| v@)
}

/// The positions, in order, of the hooks among the first `n` whose stages hold `stage`.
pub open spec fn stage_positions(hook_stages: Seq<Seq<Stage>>, stage: Stage, n: int) -> Seq<usize>
    decreases n,
{
    if n <= 0 {
        Seq::empty()
    } else {
        let rest = stage_positions(hook_stages, stage, n - 1);
        if hook_stages[n - 1].contains(stage) {
            rest.push((n - 1) as usize)
        } else {
            rest
        }
    }
}

/// The hooks that run at `stage`, by position, given the stages of each
/// selected hook: those whose stages hold it. When no hook was selected at
/// all, or none of them runs at `stage`, the run fails with the error that
/// says so.
pub fn hooks_at_stage(hook_stages: &Vec<Vec<Stage>>, stage: Stage) -> (r: Result<Vec<usize>, String>)
    ensures
        ({
            let positions = stage_positions(
                stage_lists(hook_stages@),
                stage,
                hook_stages@.len() as int,
            );
            &&& hook_stages@.len() == 0 ==> (r matches Err(m) && m@ == no_hooks_text())
            &&& hook_stages@.len() > 0 ==> (r is Err <==> positions.len() == 0)
            &&& hook_stages@.len() > 0 ==> (r matches Err(m) ==> m@ == no_hooks_for_stage_text(
                stage_name(stage),
            ))
            &&& r matches Ok(v) ==> v@ == positions
        }),
{
    if hook_stages.len() == 0 {
        return Err(no_hooks_message());
    }
    let ghost lists = stage_lists(hook_stages@);
    let mut positions: Vec<usize> = Vec::new();
    let mut i: usize = 0;
    while i < hook_stages.len()
        invariant
            i <= hook_stages@.len(),
            lists == stage_lists(hook_stages@),
            positions@ == stage_positions(lists, stage, i as int),
        decreases hook_stages.len() - i,
    {
        assert(lists[i as int] == hook_stages@[i as int]@);
        if stages_contain(&hook_stages[i], stage) {
            positions.push(i);
        }
        i = i + 1;
    }
    if positions.len() == 0 {
        return Err(no_hooks_for_stage_message(stage));
    }
    Ok(positions)
}

/// `--last-commit` stands for the range `HEAD~1..HEAD`; otherwise the given refs are kept.
pub fn resolve_refs(last_commit: bool, from_ref: Option<String>, to_ref: Option<String>) -> (r: (
    Option<String>,
    Option<String>,
))
    ensures
        last_commit ==> opt_text(r.0) == Some("HEAD~1"@) && opt_text(r.1) == Some("HEAD"@),
        !last_commit ==> r.0 == from_ref && r.1 == to_ref,
{
    if last_commit {
        (Some(owned("HEAD~1")), Some(owned("HEAD")))
    } else {
        (from_ref, to_ref)
    }
}

/// Whether unstaged changes are stashed before the hooks run: only when the
/// run works on the staged files, not on all files or given files or directories.
pub fn should_stash(all_files: bool, files: &Vec<String>, directories: &Vec<String>) -> (r: bool)
    ensures
        r == (!all_files && files@.len() == 0 && directories@.len() == 0),
{
    !all_files && files.len() == 0 && directories.len() == 0
}

/// Whether the run is skipped to prevent recursive post-checkout hooks.
pub fn skip_recursive_post_checkout(hook_stage: Stage, skip_post_checkout_set: bool) -> (r: bool)
    ensures
        r == (hook_stage == Stage::PostCheckout && skip_post_checkout_set),
{
    hook_stage == Stage::PostCheckout && skip_post_checkout_set
}

/// The language whose installation a hook uses: `pygrep` hooks are installed
/// as `python` hooks, every other language as itself.
pub open spec fn install_language_of(l: Language) -> Language {
    if l == Language::Pygrep {
        Language::Python
    } else {
        l
    }
}

pub fn install_language(language: Language) -> (r: Language)
    ensures
        r == install_language_of(language),
{
    if language == Language::Pygrep {
        Language::Python
    } else {
        language
    }
}

/// A number for each language, distinct for distinct languages.
pub open spec fn language_code(l: Language) -> u64 {
    match l {
        Language::Conda => 0,
        Language::Coursier => 1,
        Language::Dart => 2,
        Language::Docker => 3,
        Language::DockerImage => 4,
        Language::Dotnet => 5,
        Language::Fail => 6,
        Language::Golang => 7,
        Language::Haskell => 8,
        Language::Lua => 9,
        Language::Node => 10,
        Language::Perl => 11,
        Language::Python => 12,
        Language::R => 13,
        Language::Ruby => 14,
        Language::Rust => 15,
        Language::Swift => 16,
        Language::Pygrep => 17,
        Language::Script => 18,
        Language::System => 19,
    }
}

fn code_of(l: Language) -> (r: u64)
    ensures
        r == language_code(l),
{
    match l {
        Language::Conda => 0,
        Language::Coursier => 1,
        Language::Dart => 2,
        Language::Docker => 3,
        Language::DockerImage => 4,
        Language::Dotnet => 5,
        Language::Fail => 6,
        Language::Golang => 7,
        Language::Haskell => 8,
        Language::Lua => 9,
        Language::Node => 10,
        Language::Perl => 11,
        Language::Python => 12,
        Language::R => 13,
        Language::Ruby => 14,
        Language::Rust => 15,
        Language::Swift => 16,
        Language::Pygrep => 17,
        Language::Script => 18,
        Language::System => 19,
    }
}

/// The install keys of a list of hook languages.
pub open spec fn install_keys(languages: Seq<Language>) -> Seq<u64> {
    languages.map_values(|l: Language| language_code(install_language_of(l)))
}

/// Groups hooks by the language they are installed with, so that different
/// languages can be installed in parallel. Each group lists the positions of
/// its hooks in order, the groups in the order their languages first appear.
pub fn group_by_install_language(languages: &Vec<Language>) -> (r: Vec<Vec<usize>>)
    ensures
        key_groups(install_keys(languages@), group_views(r@), languages@.len() as int),
{
    let mut keys: Vec<u64> = Vec::new();
    let mut i: usize = 0;
    while i < languages.len()
        invariant
            i <= languages@.len(),
            keys@ == install_keys(languages@.take(i as int)),
        decreases languages.len() - i,
    {
        keys.push(code_of(install_language(languages[i])));
        assert(install_keys(languages@.take(i + 1)) =~= install_keys(languages@.take(i as int)).push(
            language_code(install_language_of(languages@[i as int])),
        ));
        i = i + 1;
    }
    assert(languages@.take(languages.len() as int) =~= languages@);
    partition_hooks(&keys)
}

/// An environment found installed in the store, with the outcome of its
/// health check once that check has run. The check runs at most once: the
/// first outcome recorded is the one kept.
pub struct LazyInstallInfo<T> {
    info: T,
    health: Option<bool>,
}

impl<T> LazyInstallInfo<T> {
    /// The environment itself.
    pub closed spec fn environment(&self) -> T {
        self.info
    }

    /// The outcome of the health check, once it has run.
    pub closed spec fn checked(&self) -> Option<bool> {
        self.health
    }

    /// An environment whose health is not checked yet.
    pub fn new(info: T) -> (r: Self)
        ensures
            r.environment() == info,
            r.checked() is None,
    {
        LazyInstallInfo { info, health: None }
    }

    pub fn info(&self) -> (r: &T)
        ensures
            *r == self.environment(),
    {
        &self.info
    }

    /// The outcome of the health check, if it has run.
    pub fn health(&self) -> (r: Option<bool>)
        ensures
            r == self.checked(),
    {
        self.health
    }

    /// Records the outcome of a health check and returns the outcome that
    /// holds: the first one recorded.
    pub fn record_health(&mut self, healthy: bool) -> (r: bool)
        ensures
            final(self).environment() == old(self).environment(),
            final(self).checked() == health_recorded(old(self).checked(), healthy),
            final(self).checked() == Some(r),
            r == (match old(self).checked() {
                Some(h) => h,
                None => healthy,
            }),
    {
        match self.health {
            Some(h) => h,
            None => {
                self.health = Some(healthy);
                healthy
            },
        }
    }
}

/// The outcome kept once `healthy` is recorded where `kept` was kept: the
/// first outcome stays.
pub open spec fn health_recorded(kept: Option<bool>, healthy: bool) -> Option<bool> {
    match kept {
        Some(h) => Some(h),
        None => Some(healthy),
    }
}

/// The outcome kept after `outcomes` are recorded in turn where `kept` was kept.
pub open spec fn health_after(kept: Option<bool>, outcomes: Seq<bool>) -> Option<bool>
    decreases outcomes.len(),
{
    if outcomes.len() == 0 {
        kept
    } else {
        health_recorded(health_after(kept, outcomes.drop_last()), outcomes.last())
    }
}

/// However many outcomes are recorded for an environment whose health was
/// not checked yet, each record returns the first outcome: the health check
/// counts once, and from the first record on the environment counts as
/// checked, so a caller that checks only unchecked environments checks each
/// at most once.
pub proof fn lemma_first_health_outcome_holds(outcomes: Seq<bool>)
    requires
        outcomes.len() > 0,
    ensures
        forall|k: int|
            1 <= k <= outcomes.len() ==> #[trigger] health_after(None, outcomes.take(k)) == Some(
                outcomes[0],
            ),
    decreases outcomes.len(),
{
    if outcomes.len() > 1 {
        let front = outcomes.drop_last();
        lemma_first_health_outcome_holds(front);
        assert(front[0] == outcomes[0]);
        assert forall|k: int| 1 <= k <= outcomes.len() implies #[trigger] health_after(
            None,
            outcomes.take(k),
        ) == Some(outcomes[0]) by {
            if k < outcomes.len() {
                assert(outcomes.take(k) =~= front.take(k));
            } else {
                assert(outcomes.take(k) =~= outcomes);
                assert(outcomes.take(k).drop_last() =~= front.take(k - 1));
                assert(outcomes.take(k).last() == outcomes.last());
                assert(health_after(None, front.take(k - 1)) == Some(outcomes[0]));
                let t = outcomes.take(k);
                assert(health_after(None, t) == health_recorded(
                    health_after(None, t.drop_last()),
                    t.last(),
                ));
            }
        }
    } else {
        assert forall|k: int| 1 <= k <= outcomes.len() implies #[trigger] health_after(
            None,
            outcomes.take(k),
        ) == Some(outcomes[0]) by {
            let t = outcomes.take(k);
            assert(t.drop_last() =~= Seq::<bool>::empty());
            assert(health_after(None, Seq::<bool>::empty()) == None::<bool>);
            assert(t.last() == outcomes[0]);
            assert(health_after(None, t) == health_recorded(
                health_after(None, t.drop_last()),
                t.last(),
            ));
        }
    }
}

/// What to do for the next hook of a partition while its environment is
/// looked for.
#[derive(Debug, Clone, Copy, PartialEq, Eq, Structural)]
pub enum InstallStep {
    /// Use the environment installed earlier in this partition at this position.
    UseEarlier(usize),
    /// Check the health of the stored environment at this position.
    CheckStored(usize),
    /// Use the stored environment at this position, which is healthy.
    UseStored(usize),
    /// No environment serves the hook: install it.
    Install,
}

/// No environment installed earlier in the partition serves the hook.
pub open spec fn no_earlier_match(earlier: Seq<bool>) -> bool {
    forall|j: int| 0 <= j < earlier.len() ==> !earlier[j]
}

/// Every stored environment before `k` that matches the hook was found unhealthy.
pub open spec fn unhealthy_before(stored: Seq<(bool, Option<bool>)>, k: int) -> bool {
    forall|j: int| 0 <= j < k && #[trigger] stored[j].0 ==> stored[j].1 == Some(false)
}

/// The next step of the search for a hook's environment. `earlier` tells,
/// for each environment installed earlier in the partition, whether it is an
/// installed environment that matches the hook; `stored` tells, for each
/// environment found in the store, whether it matches the hook and how its
/// health check came out, once it has run.
///
/// The first earlier match is used; else the stored environments that match
/// are taken in order, skipping the unhealthy ones: the first one not yet
/// checked is to be checked, and the first healthy one is used; when every
/// one that matches is unhealthy, the hook is installed. A check is asked
/// for only of an environment whose health is not known, so with the outcome
/// recorded, no environment is checked twice.
pub fn next_install_step(earlier: &Vec<bool>, stored: &Vec<(bool, Option<bool>)>) -> (r: InstallStep)
    ensures
        match r {
            InstallStep::UseEarlier(i) => i < earlier@.len() && earlier@[i as int] && forall|j: int|
                0 <= j < i ==> !earlier@[j],
            InstallStep::CheckStored(k) => no_earlier_match(earlier@) && k < stored@.len()
                && stored@[k as int].0 && stored@[k as int].1 is None && unhealthy_before(
                stored@,
                k as int,
            ),
            InstallStep::UseStored(k) => no_earlier_match(earlier@) && k < stored@.len()
                && stored@[k as int].0 && stored@[k as int].1 == Some(true) && unhealthy_before(
                stored@,
                k as int,
            ),
            InstallStep::Install => no_earlier_match(earlier@) && unhealthy_before(
                stored@,
                stored@.len() as int,
            ),
        },
{
    match next_match(earlier, 0) {
        Some(i) => {
            return InstallStep::UseEarlier(i);
        },
        None => {},
    }
    let mut k: usize = 0;
    while k < stored.len()
        invariant
            k <= stored@.len(),
            no_earlier_match(earlier@),
            unhealthy_before(stored@, k as int),
        decreases stored.len() - k,
    {
        let (matches, health) = stored[k];
        if matches {
            match health {
                None => {
                    return InstallStep::CheckStored(k);
                },
                Some(true) => {
                    return InstallStep::UseStored(k);
                },
                Some(false) => {},
            }
        }
        k = k + 1;
    }
    InstallStep::Install
}

/// Where the search for an installed environment goes on: the first
/// environment at or after `start` that matches the hook. The environments
/// installed earlier in this run are searched from the start; the ones found
/// in the store are searched again past each one that turned out unhealthy.
pub fn next_match(matches: &Vec<bool>, start: usize) -> (r: Option<usize>)
    ensures
        match r {
            Some(i) => start <= i < matches@.len() && matches@[i as int] && forall|j: int|
                start <= j < i ==> !matches@[j],
            None => forall|j: int| start <= j < matches@.len() ==> !matches@[j],
        },
{
    let mut i = start;
    while i < matches.len()
        invariant
            start <= i,
            forall|j: int| start <= j < i && j < matches@.len() ==> !matches@[j],
        decreases matches.len() - i,
    {
        if matches[i] {
            return Some(i);
        }
        i = i + 1;
    }
    None
}

/// Two hooks share an install group exactly when they are installed with the
/// same language.
pub proof fn lemma_install_keys_match_languages(a: Language, b: Language)
    ensures
        language_code(install_language_of(a)) == language_code(install_language_of(b))
            <==> install_language_of(a) == install_language_of(b),
{
}

} // verus!
