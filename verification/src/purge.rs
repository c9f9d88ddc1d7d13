use vstd::prelude::*;
use vstd::string::StringExecFns;

use crate::platform::{is_skip_name, should_skip_purge_file, Platform};

verus! {

/// The reserved name of the Blackhole directory itself, and of a staged batch
/// at the moment it is handed to the trash.
pub open spec fn blackhole_name() -> Seq<char> {
    "BLACKHOLE"@
}

/// The prefix of a staging directory's name while a purge is collecting
/// entries into it.
pub open spec fn staging_prefix() -> Seq<char> {
    "BLACKHOLE_PURGE_"@
}

/// Whether a purge moves the entry with this name into the staging directory:
/// everything except the staging directory itself and the platform's sidecar
/// files.
pub open spec fn purge_keeps(staging: Seq<char>, platform: Platform) -> spec_fn(Seq<char>) -> bool {
    |e: Seq<char>| e != staging && !is_skip_name(platform, e)
}

/// The names a purge relocates into the staging directory, in listing order.
pub open spec fn purge_plan_spec(
    entries: Seq<Seq<char>>,
    staging: Seq<char>,
    platform: Platform,
) -> Seq<Seq<char>> {
    entries.filter(purge_keeps(staging, platform))
}

/// The names whose relocation succeeded, in plan order: `results[i]` says
/// whether the host managed to rename `plan[i]` into the staging directory.
pub open spec fn moved_names(plan: Seq<Seq<char>>, results: Seq<bool>) -> Seq<Seq<char>>
    recommends
        plan.len() == results.len(),
    decreases plan.len(),
{
    if plan.len() == 0 {
        Seq::empty()
    } else if results.len() == plan.len() && results.last() {
        moved_names(plan.drop_last(), results.drop_last()).push(plan.last())
    } else {
        moved_names(plan.drop_last(), results.drop_last())
    }
}

/// The reserved directory name, `BLACKHOLE`.
pub fn blackhole_dir_name() -> (r: String)
    ensures
        r@ == blackhole_name(),
{
    "BLACKHOLE".to_owned()
}

/// The name of a purge's staging directory, built from a collision-resistant
/// unique suffix.
pub fn staging_name(suffix: &String) -> (r: String)
    ensures
        r@ == staging_prefix() + suffix@,
{
    let mut r = "BLACKHOLE_PURGE_".to_owned();
    r.append(suffix.as_str());
    r
}

/// A fresh staging directory name for one purge: the reserved prefix followed
/// by a collision-resistant unique suffix, so that two concurrent purges never
/// pick the same staging directory.
pub fn new_staging_name() -> (r: String)
    ensures
        r@.len() == staging_prefix().len() + 36,
        r@.subrange(0, staging_prefix().len() as int) == staging_prefix(),
{
    let suffix = crate::host::fresh_suffix();
    let r = staging_name(&suffix);
    proof {
        assert(r@.subrange(0, staging_prefix().len() as int) =~= staging_prefix());
    }
    r
}

/// Which directory entries this purge relocates: every listed entry except the
/// staging directory itself and the platform's sidecar files, in listing
/// order.
pub fn purge_plan(entries: &Vec<String>, staging: &String, platform: Platform) -> (r: Vec<String>)
    ensures
        r.deep_view() == purge_plan_spec(entries.deep_view(), staging@, platform),
{
    let ghost pred = purge_keeps(staging@, platform);
    let mut r: Vec<String> = Vec::new();
    let mut k: usize = 0;
    proof {
        assert(r.deep_view() =~= entries.deep_view().subrange(0, 0).filter(pred));
    }
    while k < entries.len()
        invariant
            0 <= k <= entries.len(),
            pred == purge_keeps(staging@, platform),
            r.deep_view() == entries.deep_view().subrange(0, k as int).filter(pred),
        decreases entries.len() - k,
    {
        let ghost prefix = entries.deep_view().subrange(0, k as int);
        let ghost e = entries.deep_view()[k as int];
        proof {
            assert(e == entries@[k as int]@);
            assert(entries.deep_view().subrange(0, k + 1) =~= prefix.push(e));
            lemma_filter_push(prefix, e, pred);
        }
        let keep = !(&entries[k]).eq(staging) && !should_skip_purge_file(platform, &entries[k]);
        if keep {
            r.push(entries[k].clone());
            proof {
                assert(r.deep_view() =~= prefix.filter(pred).push(e));
            }
        }
        proof {
            assert(r.deep_view() == entries.deep_view().subrange(0, k + 1).filter(pred));
        }
        k += 1;
    }
    proof {
        assert(entries.deep_view().subrange(0, entries.deep_view().len() as int) =~= entries.deep_view());
    }
    r
}

/// Filtering a sequence extended by one element keeps the filtered prefix and
/// appends the element exactly when the predicate holds of it.
pub proof fn lemma_filter_push(s: Seq<Seq<char>>, x: Seq<char>, pred: spec_fn(Seq<char>) -> bool)
    ensures
        s.push(x).filter(pred) == if pred(x) {
            s.filter(pred).push(x)
        } else {
            s.filter(pred)
        },
{
    reveal(Seq::filter);
    assert(s.push(x).drop_last() =~= s);
    assert(s.push(x).last() == x);
}

/// The names whose relocation the host reported as successful, in plan order.
pub fn collect_moved(plan: &Vec<String>, results: &Vec<bool>) -> (r: Vec<String>)
    requires
        plan@.len() == results@.len(),
    ensures
        r.deep_view() == moved_names(plan.deep_view(), results@),
{
    let mut r: Vec<String> = Vec::new();
    let mut k: usize = 0;
    proof {
        assert(r.deep_view() =~= moved_names(
            plan.deep_view().subrange(0, 0),
            results@.subrange(0, 0),
        ));
    }
    while k < plan.len()
        invariant
            0 <= k <= plan@.len(),
            plan@.len() == results@.len(),
            r.deep_view() == moved_names(
                plan.deep_view().subrange(0, k as int),
                results@.subrange(0, k as int),
            ),
        decreases plan@.len() - k,
    {
        let ghost pp = plan.deep_view().subrange(0, k + 1);
        let ghost rp = results@.subrange(0, k + 1);
        proof {
            assert(pp.drop_last() =~= plan.deep_view().subrange(0, k as int));
            assert(rp.drop_last() =~= results@.subrange(0, k as int));
            assert(pp.last() == plan.deep_view()[k as int]);
            assert(plan.deep_view()[k as int] == plan@[k as int]@);
        }
        if results[k] {
            r.push(plan[k].clone());
            proof {
                assert(r.deep_view() =~= moved_names(pp.drop_last(), rp.drop_last()).push(
                    pp.last(),
                ));
            }
        }
        k += 1;
    }
    proof {
        assert(plan.deep_view().subrange(0, plan@.len() as int) =~= plan.deep_view());
        assert(results@.subrange(0, results@.len() as int) =~= results@);
    }
    r
}

/// What a purge does once every relocation has been attempted.
#[derive(Clone, Copy, PartialEq, Eq, Structural, Debug)]
pub enum PurgeDecision {
    /// At least one entry reached the staging directory: rename the staging
    /// directory to the reserved name, decorate it, and hand it to the trash.
    CommitBatch,
    /// Nothing was relocated: remove the empty staging directory and succeed
    /// without touching the trash.
    AbortEmpty,
}

/// Decides between committing the staged batch to the trash and aborting an
/// empty batch.
pub fn purge_decision(moved: &Vec<String>) -> (r: PurgeDecision)
    ensures
        r is CommitBatch <==> moved@.len() > 0,
{
    if moved.len() > 0 {
        PurgeDecision::CommitBatch
    } else {
        PurgeDecision::AbortEmpty
    }
}

} // verus!
