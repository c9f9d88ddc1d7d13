//! A ghost model of the Blackhole directory and of what one operation does to
//! it, together with the laws the lifecycle protocol obeys. The executable
//! decision functions carry contracts phrased over the same spec functions
//! (`purge_plan_spec`, `moved_names`, `is_skip_name`, `admission_outcome`), so
//! these laws speak about exactly what the host executes.

use vstd::prelude::*;
use vstd::seq_lib::group_seq_properties;

use crate::admission::{admission_outcome, EntryKind};
use crate::manager::CreateDirOutcome;
use crate::paths::is_prefix_of;
use crate::platform::{is_skip_name, Platform};
use crate::purge::{moved_names, purge_keeps, purge_plan_spec};

verus! {

/// The Blackhole directory as the protocol sees it: whether it exists, and the
/// names of its direct children.
pub struct DirState {
    pub exists: bool,
    pub entries: Seq<Seq<char>>,
}

impl DirState {
    /// A directory lists each name at most once; every listing the host reads
    /// satisfies this.
    pub open spec fn wf(self) -> bool {
        self.entries.no_duplicates()
    }
}

/// What initialization does to the directory: creates it when it is missing,
/// touches nothing when it is already there. `create_ok` says whether the
/// host's directory creation would succeed on a missing directory; the paired
/// `bool` is the reported outcome.
pub open spec fn initialize(s: DirState, create_ok: bool) -> (DirState, bool) {
    if s.exists {
        (s, true)
    } else if create_ok {
        (DirState { exists: true, entries: Seq::empty() }, true)
    } else {
        (s, false)
    }
}

/// The outcome the host observes when it attempts the directory creation on
/// this state.
pub open spec fn create_outcome_of(s: DirState, create_ok: bool) -> CreateDirOutcome {
    if s.exists {
        CreateDirOutcome::AlreadyExisted
    } else if create_ok {
        CreateDirOutcome::Created
    } else {
        CreateDirOutcome::Failed
    }
}

/// The model agrees with the executable classifier: initialization reports
/// success exactly when the creation outcome it classifies is not a failure.
pub proof fn lemma_initialize_matches_outcome(s: DirState, create_ok: bool)
    ensures
        initialize(s, create_ok).1 == !(create_outcome_of(s, create_ok) is Failed),
{
}

/// Initialization is idempotent: once one call has succeeded, a second call
/// never errors and never changes the set of pending items.
pub proof fn lemma_initialize_idempotent(s: DirState, first_create_ok: bool, second_create_ok: bool)
    ensures
        ({
            let (s1, ok1) = initialize(s, first_create_ok);
            ok1 ==> initialize(s1, second_create_ok) == (s1, true)
        }),
{
}

/// Initializing an existing Blackhole succeeds and leaves its contents alone.
pub proof fn lemma_initialize_preserves_contents(s: DirState, create_ok: bool)
    requires
        s.exists,
    ensures
        initialize(s, create_ok) == (s, true),
{
}

/// What one admission does to the directory: a successful send adds exactly
/// the resolved destination name; a rejected send admits nothing. The manager
/// returns an error and no move plan in the rejected case, so the host has no
/// move to perform.
pub open spec fn send_run(s: DirState, admitted: Option<Seq<char>>) -> DirState {
    match admitted {
        None => s,
        Some(name) => DirState { exists: s.exists, entries: s.entries.push(name) },
    }
}

/// Sending the Blackhole directory's own path, or any path already under it,
/// is rejected whatever was observed at the source, and the rejected send
/// leaves the directory exactly as it was: no entry is created, moved or
/// removed.
pub proof fn lemma_self_nesting_changes_nothing(
    s: DirState,
    root: Seq<Seq<char>>,
    source: Seq<Seq<char>>,
    kind: EntryKind,
)
    requires
        is_prefix_of(root, source),
    ensures
        admission_outcome(root, source, kind) is Some,
        send_run(s, None) == s,
{
}

/// Everything one purge did, as the user can observe it afterwards.
pub struct PurgeRun {
    /// The names left in the Blackhole directory (the purge's own staging
    /// directory is never one of them).
    pub remaining: Seq<Seq<char>>,
    /// The batches handed to the OS trash, each with the names it holds.
    pub batches: Seq<Seq<Seq<char>>>,
    /// A batch left on disk under the reserved name because its trash
    /// submission failed.
    pub leftover: Option<Seq<Seq<char>>>,
    /// Whether the Blackhole directory exists afterwards.
    pub exists: bool,
    /// Whether the purge reported success.
    pub ok: bool,
}

/// What one purge does to the directory, given the outcomes of the steps the
/// host performs: `move_ok[i]` says whether relocating the `i`-th planned
/// entry into the staging directory succeeded, `rename_ok` whether promoting
/// the staging directory to the reserved name succeeded, and `trash_ok`
/// whether the trash accepted the promoted batch. The staging directory is the
/// purge's own artifact, so the listing is taken without it; decoration is
/// cosmetic and influences no outcome. A batch is never left under its
/// temporary name: when the promotion fails, the host restores every staged
/// entry into the live directory, removes the emptied staging directory, and
/// surfaces the failure.
pub open spec fn purge_run(
    s: DirState,
    staging: Seq<char>,
    platform: Platform,
    move_ok: Seq<bool>,
    rename_ok: bool,
    trash_ok: bool,
) -> PurgeRun {
    if !s.exists {
        // Nothing to purge: a no-op success.
        PurgeRun {
            remaining: s.entries,
            batches: Seq::empty(),
            leftover: None,
            exists: false,
            ok: true,
        }
    } else {
        let live = live_entries(s.entries, staging);
        let plan = purge_plan_spec(s.entries, staging, platform);
        let moved = moved_names(plan, move_ok);
        if moved.len() == 0 {
            // Empty batch: the staging directory is removed again and the
            // trash is never involved.
            PurgeRun {
                remaining: live,
                batches: Seq::empty(),
                leftover: None,
                exists: true,
                ok: true,
            }
        } else if !rename_ok {
            // The promotion failed: the staged entries go back where they
            // came from and the emptied staging directory is removed.
            PurgeRun {
                remaining: live,
                batches: Seq::empty(),
                leftover: None,
                exists: true,
                ok: false,
            }
        } else if trash_ok {
            PurgeRun {
                remaining: live.filter(|e: Seq<char>| !moved.contains(e)),
                batches: seq![moved],
                leftover: None,
                exists: true,
                ok: true,
            }
        } else {
            // The promoted batch stays on disk, under the reserved name,
            // rather than destroying data.
            PurgeRun {
                remaining: live.filter(|e: Seq<char>| !moved.contains(e)),
                batches: Seq::empty(),
                leftover: Some(moved),
                exists: true,
                ok: false,
            }
        }
    }
}

/// Every name that was moved is one the plan named.
pub proof fn lemma_moved_names_subset(plan: Seq<Seq<char>>, results: Seq<bool>, x: Seq<char>)
    requires
        moved_names(plan, results).contains(x),
    ensures
        plan.contains(x),
    decreases plan.len(),
{
    broadcast use group_seq_properties;

    if plan.len() > 0 {
        let rest = moved_names(plan.drop_last(), results.drop_last());
        if results.len() == plan.len() && results.last() {
            if x == plan.last() {
                assert(plan.contains(x)) by {
                    assert(plan[plan.len() - 1] == x);
                }
            } else {
                assert(rest.contains(x));
                lemma_moved_names_subset(plan.drop_last(), results.drop_last(), x);
            }
        } else {
            lemma_moved_names_subset(plan.drop_last(), results.drop_last(), x);
        }
    }
}

/// When every relocation succeeds, the whole plan is moved.
pub proof fn lemma_moved_names_all_ok(plan: Seq<Seq<char>>, results: Seq<bool>)
    requires
        plan.len() == results.len(),
        forall|i: int| 0 <= i < results.len() ==> results[i],
    ensures
        moved_names(plan, results) == plan,
    decreases plan.len(),
{
    if plan.len() > 0 {
        lemma_moved_names_all_ok(plan.drop_last(), results.drop_last());
        assert(moved_names(plan, results) =~= plan);
    } else {
        assert(moved_names(plan, results) =~= plan);
    }
}

/// When exactly one relocation fails, everything else is still moved, in
/// order.
pub proof fn lemma_moved_names_one_failure(plan: Seq<Seq<char>>, results: Seq<bool>, k: int)
    requires
        plan.len() == results.len(),
        0 <= k < results.len(),
        !results[k],
        forall|i: int| 0 <= i < results.len() && i != k ==> results[i],
    ensures
        moved_names(plan, results) == plan.remove(k),
    decreases plan.len(),
{
    if k == plan.len() - 1 {
        lemma_moved_names_all_ok(plan.drop_last(), results.drop_last());
        assert(moved_names(plan, results) =~= plan.remove(k));
    } else {
        lemma_moved_names_one_failure(plan.drop_last(), results.drop_last(), k);
        assert(moved_names(plan, results) =~= plan.remove(k));
    }
}

/// Two predicates that agree on a sequence's elements filter it identically.
pub proof fn lemma_filter_congruent(
    s: Seq<Seq<char>>,
    p: spec_fn(Seq<char>) -> bool,
    q: spec_fn(Seq<char>) -> bool,
)
    requires
        forall|i: int| 0 <= i < s.len() ==> (p(#[trigger] s[i]) <==> q(s[i])),
    ensures
        s.filter(p) == s.filter(q),
    decreases s.len(),
{
    reveal(Seq::filter);
    if s.len() > 0 {
        assert(forall|i: int|
            0 <= i < s.drop_last().len() ==> (p(#[trigger] s.drop_last()[i]) <==> q(
                s.drop_last()[i],
            )));
        lemma_filter_congruent(s.drop_last(), p, q);
        assert(s[s.len() - 1] == s.last());
    }
}

/// Filtering keeps names distinct.
pub proof fn lemma_filter_no_duplicates(s: Seq<Seq<char>>, p: spec_fn(Seq<char>) -> bool)
    requires
        s.no_duplicates(),
    ensures
        s.filter(p).no_duplicates(),
    decreases s.len(),
{
    broadcast use group_seq_properties;

    reveal(Seq::filter);
    if s.len() > 0 {
        let rest = s.drop_last();
        lemma_filter_no_duplicates(rest, p);
        if p(s.last()) {
            if rest.filter(p).contains(s.last()) {
                rest.lemma_filter_contains_rev(p, s.last());
                let j = choose|j: int| 0 <= j < rest.len() && rest[j] == s.last();
                assert(s[j] == s[s.len() - 1]);
                assert(false);
            }
        }
    }
}

/// Whether an entry is live during a purge: everything but the purge's own
/// staging directory.
pub open spec fn not_staging(staging: Seq<char>) -> spec_fn(Seq<char>) -> bool {
    |e: Seq<char>| e != staging
}

/// The live contents of the directory during a purge: the listing without the
/// purge's own staging directory.
pub open spec fn live_entries(entries: Seq<Seq<char>>, staging: Seq<char>) -> Seq<Seq<char>> {
    entries.filter(not_staging(staging))
}

/// The live contents never include the staging name.
pub proof fn lemma_live_entries_exclude_staging(entries: Seq<Seq<char>>, staging: Seq<char>)
    ensures
        !live_entries(entries, staging).contains(staging),
{
    broadcast use group_seq_properties;

    let live = live_entries(entries, staging);
    if live.contains(staging) {
        let j = choose|j: int| 0 <= j < live.len() && live[j] == staging;
        entries.lemma_filter_pred(not_staging(staging), j);
        assert(false);
    }
}

/// However each step turns out, a purge never leaves a batch half-committed
/// under its temporary staging name: the staging directory is promoted to the
/// reserved name, removed empty, or emptied back into the live directory; and
/// the Blackhole directory itself still exists.
pub proof fn lemma_no_half_committed_batch(
    s: DirState,
    staging: Seq<char>,
    platform: Platform,
    move_ok: Seq<bool>,
    rename_ok: bool,
    trash_ok: bool,
)
    requires
        s.exists,
    ensures
        ({
            let run = purge_run(s, staging, platform, move_ok, rename_ok, trash_ok);
            &&& !run.remaining.contains(staging)
            &&& run.exists
        }),
{
    broadcast use group_seq_properties;

    let run = purge_run(s, staging, platform, move_ok, rename_ok, trash_ok);
    let live = live_entries(s.entries, staging);
    lemma_live_entries_exclude_staging(s.entries, staging);
    if run.remaining.contains(staging) {
        // The remaining entries are the live ones, possibly filtered further.
        let moved = moved_names(purge_plan_spec(s.entries, staging, platform), move_ok);
        live.lemma_filter_contains_rev(|e: Seq<char>| !moved.contains(e), staging);
        assert(false);
    }
}

/// Purging a Blackhole that holds only platform sidecar files (or nothing at
/// all) is a no-op: the directory still exists, its contents are untouched,
/// no staging artifact survives, and nothing is submitted to the trash.
pub proof fn lemma_empty_purge_is_noop(
    s: DirState,
    staging: Seq<char>,
    platform: Platform,
    move_ok: Seq<bool>,
    rename_ok: bool,
    trash_ok: bool,
)
    requires
        s.exists,
        forall|i: int|
            0 <= i < s.entries.len() ==> is_skip_name(platform, #[trigger] s.entries[i])
                || s.entries[i] == staging,
    ensures
        ({
            let run = purge_run(s, staging, platform, move_ok, rename_ok, trash_ok);
            &&& run.remaining == live_entries(s.entries, staging)
            &&& !run.remaining.contains(staging)
            &&& run.batches.len() == 0
            &&& run.leftover is None
            &&& run.exists
            &&& run.ok
        }),
{
    broadcast use group_seq_properties;

    let pred = purge_keeps(staging, platform);
    let plan = purge_plan_spec(s.entries, staging, platform);
    assert forall|i: int| 0 <= i < s.entries.len() implies !pred(#[trigger] s.entries[i]) by {}
    if plan.len() > 0 {
        s.entries.lemma_filter_pred(pred, 0);
        s.entries.lemma_filter_contains_rev(pred, plan[0]);
        let j = choose|j: int| 0 <= j < s.entries.len() && s.entries[j] == plan[0];
        assert(false);
    }
    assert(moved_names(plan, move_ok) == Seq::<Seq<char>>::empty());
    lemma_live_entries_exclude_staging(s.entries, staging);
}

/// Purging a Blackhole with real contents, when every step succeeds, submits
/// exactly one batch holding exactly the planned entries, and leaves the
/// directory existing with only sidecar files (and nothing of the batch)
/// behind.
pub proof fn lemma_full_purge_commits_everything(
    s: DirState,
    staging: Seq<char>,
    platform: Platform,
    move_ok: Seq<bool>,
)
    requires
        s.exists,
        move_ok.len() == purge_plan_spec(s.entries, staging, platform).len(),
        forall|i: int| 0 <= i < move_ok.len() ==> move_ok[i],
        purge_plan_spec(s.entries, staging, platform).len() > 0,
    ensures
        ({
            let plan = purge_plan_spec(s.entries, staging, platform);
            let run = purge_run(s, staging, platform, move_ok, true, true);
            &&& run.batches == seq![plan]
            &&& run.remaining == live_entries(s.entries, staging).filter(
                |e: Seq<char>| is_skip_name(platform, e),
            )
            &&& run.leftover is None
            &&& run.exists
            &&& run.ok
        }),
{
    broadcast use group_seq_properties;

    let pred = purge_keeps(staging, platform);
    let plan = purge_plan_spec(s.entries, staging, platform);
    let live = live_entries(s.entries, staging);
    lemma_moved_names_all_ok(plan, move_ok);
    assert forall|i: int|
        0 <= i < live.len() implies (!plan.contains(#[trigger] live[i]) <==> is_skip_name(
        platform,
        live[i],
    )) by {
        s.entries.lemma_filter_pred(not_staging(staging), i);
        live.lemma_index_contains(i);
        s.entries.lemma_filter_contains_rev(not_staging(staging), live[i]);
        let j = choose|j: int| 0 <= j < s.entries.len() && s.entries[j] == live[i];
        if pred(live[i]) {
            s.entries.lemma_filter_contains(pred, j);
        }
        if plan.contains(live[i]) {
            let m = choose|m: int| 0 <= m < plan.len() && plan[m] == live[i];
            s.entries.lemma_filter_pred(pred, m);
        }
    }
    lemma_filter_congruent(
        live,
        |e: Seq<char>| !plan.contains(e),
        |e: Seq<char>| is_skip_name(platform, e),
    );
}

/// When one entry cannot be relocated, the purge still completes for all the
/// others, reports success, and leaves the failed entry behind in the live
/// directory: with more than one planned entry, the batch of the others is
/// trashed; with the failed entry alone in the plan, nothing was staged and
/// the empty batch is aborted.
pub proof fn lemma_partial_failure_still_succeeds(
    s: DirState,
    staging: Seq<char>,
    platform: Platform,
    move_ok: Seq<bool>,
    k: int,
)
    requires
        s.exists,
        s.wf(),
        move_ok.len() == purge_plan_spec(s.entries, staging, platform).len(),
        0 <= k < move_ok.len(),
        !move_ok[k],
        forall|i: int| 0 <= i < move_ok.len() && i != k ==> move_ok[i],
    ensures
        ({
            let plan = purge_plan_spec(s.entries, staging, platform);
            let run = purge_run(s, staging, platform, move_ok, true, true);
            &&& run.remaining.contains(plan[k])
            &&& plan.len() > 1 ==> run.batches == seq![plan.remove(k)]
            &&& plan.len() == 1 ==> run.batches.len() == 0
            &&& run.leftover is None
            &&& run.exists
            &&& run.ok
        }),
{
    broadcast use group_seq_properties;

    let pred = purge_keeps(staging, platform);
    let plan = purge_plan_spec(s.entries, staging, platform);
    let live = live_entries(s.entries, staging);
    lemma_moved_names_one_failure(plan, move_ok, k);
    let moved = plan.remove(k);
    plan.remove_ensures(k);
    lemma_filter_no_duplicates(s.entries, pred);
    // The failed entry is a live entry: in the listing, not the staging
    // directory, not a sidecar.
    s.entries.lemma_filter_pred(pred, k);
    plan.lemma_index_contains(k);
    s.entries.lemma_filter_contains_rev(pred, plan[k]);
    let i = choose|i: int| 0 <= i < s.entries.len() && s.entries[i] == plan[k];
    s.entries.lemma_filter_contains(not_staging(staging), i);
    if plan.len() == 1 {
        assert(moved.len() == 0);
    } else {
        // The failed entry was not moved: the plan lists distinct names.
        assert(!moved.contains(plan[k])) by {
            if moved.contains(plan[k]) {
                let j = choose|j: int| 0 <= j < moved.len() && moved[j] == plan[k];
                if j < k {
                    assert(plan[j] == plan[k]);
                } else {
                    assert(plan[j + 1] == plan[k]);
                }
                assert(false);
            }
        }
        let n = choose|n: int| 0 <= n < live.len() && live[n] == plan[k];
        live.lemma_filter_contains(|e: Seq<char>| !moved.contains(e), n);
    }
}

/// No platform sidecar file is ever part of a trash submission or of a batch
/// left behind, however the individual steps turned out.
pub proof fn lemma_skip_files_never_trashed(
    s: DirState,
    staging: Seq<char>,
    platform: Platform,
    move_ok: Seq<bool>,
    rename_ok: bool,
    trash_ok: bool,
)
    ensures
        ({
            let run = purge_run(s, staging, platform, move_ok, rename_ok, trash_ok);
            &&& forall|b: int, j: int|
                0 <= b < run.batches.len() && 0 <= j < run.batches[b].len() ==> !is_skip_name(
                    platform,
                    #[trigger] run.batches[b][j],
                )
            &&& run.leftover matches Some(l) ==> forall|j: int|
                0 <= j < l.len() ==> !is_skip_name(platform, #[trigger] l[j])
        }),
{
    broadcast use group_seq_properties;

    let pred = purge_keeps(staging, platform);
    let plan = purge_plan_spec(s.entries, staging, platform);
    let moved = moved_names(plan, move_ok);
    assert forall|j: int| 0 <= j < moved.len() implies !is_skip_name(
        platform,
        #[trigger] moved[j],
    ) by {
        moved.lemma_index_contains(j);
        lemma_moved_names_subset(plan, move_ok, moved[j]);
        let i = choose|i: int| 0 <= i < plan.len() && plan[i] == moved[j];
        s.entries.lemma_filter_pred(pred, i);
    }
}

} // verus!
