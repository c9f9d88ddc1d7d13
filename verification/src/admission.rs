use vstd::prelude::*;
use vstd::string::StringExecFns;

use crate::digits::{dec_of, lemma_dec_of_injective, lemma_dec_of_positive_len, u32_to_string};
use crate::errors::{BlackholeError, InvalidReason};
use crate::paths::{is_prefix_of, FsPath};
use vstd::relations::injective_on;
use vstd::set_lib::{lemma_int_range, lemma_len_subset, lemma_map_size, set_int_range};

verus! {

/// What the host observed at the source path before asking to admit it.
#[derive(Clone, Copy, PartialEq, Eq, Structural, Debug)]
pub enum EntryKind {
    /// A regular file.
    File,
    /// A directory.
    Directory,
    /// Nothing exists at the path.
    Missing,
    /// Something else: a broken symlink, a device node.
    Other,
}

/// The one move a successful admission asks the host to perform.
#[derive(Debug)]
pub struct MovePlan {
    /// The item as it stands now.
    pub from: FsPath,
    /// Where it goes: directly inside the Blackhole directory, under a name
    /// that collides with nothing already there.
    pub to: FsPath,
}

/// Why a send is rejected, if it is, before any name probing: the source must
/// exist, must have a final name component, and must not already sit inside
/// the Blackhole directory; and what exists there must be a regular file or a
/// directory.
pub open spec fn admission_outcome(
    root: Seq<Seq<char>>,
    source: Seq<Seq<char>>,
    kind: EntryKind,
) -> Option<InvalidReason> {
    if kind is Missing || source.len() == 0 {
        Some(InvalidReason::MissingSource)
    } else if is_prefix_of(root, source) {
        Some(InvalidReason::AlreadyInBlackhole)
    } else if !(kind is File || kind is Directory) {
        Some(InvalidReason::NotFileOrDirectory)
    } else {
        None
    }
}

/// Sending the Blackhole directory's own path, or any path already under it,
/// is always rejected as invalid input, so nothing is ever moved and the
/// filesystem is left unchanged.
pub proof fn lemma_no_self_nesting(
    root: Seq<Seq<char>>,
    source: Seq<Seq<char>>,
    kind: EntryKind,
)
    requires
        is_prefix_of(root, source),
        !(kind is Missing),
        source.len() > 0,
    ensures
        admission_outcome(root, source, kind) == Some(InvalidReason::AlreadyInBlackhole),
{
}

/// Collision resolution is deterministic given the existing directory
/// contents: only one probe index is both free and preceded by collisions
/// alone, so the admitted name is a function of the listing and the base name.
pub proof fn lemma_admission_deterministic(
    existing: Seq<Seq<char>>,
    base: Seq<char>,
    i1: nat,
    i2: nat,
)
    requires
        name_is_free(existing, base, i1),
        forall|j: nat| j < i1 ==> !name_is_free(existing, base, j),
        name_is_free(existing, base, i2),
        forall|j: nat| j < i2 ==> !name_is_free(existing, base, j),
    ensures
        i1 == i2,
{
}

/// The destination name tried at probe step `i`: the base name itself first,
/// then the base name with a parenthesized disambiguator appended.
pub open spec fn numbered_name(base: Seq<char>, i: nat) -> Seq<char> {
    if i == 0 {
        base
    } else {
        base + seq![' ', '('] + dec_of(i) + seq![')']
    }
}

/// Whether probe step `i` would find a free destination name.
pub open spec fn name_is_free(existing: Seq<Seq<char>>, base: Seq<char>, i: nat) -> bool {
    !existing.contains(numbered_name(base, i))
}

/// Distinct probe steps try distinct destination names.
pub proof fn lemma_numbered_name_injective(base: Seq<char>, i: nat, j: nat)
    requires
        numbered_name(base, i) == numbered_name(base, j),
    ensures
        i == j,
{
    if i == 0 && j != 0 {
        lemma_dec_of_positive_len(j);
        assert(numbered_name(base, j).len() > base.len());
    } else if i != 0 && j == 0 {
        lemma_dec_of_positive_len(i);
        assert(numbered_name(base, i).len() > base.len());
    } else if i != 0 && j != 0 {
        let di = dec_of(i);
        let dj = dec_of(j);
        assert(numbered_name(base, i).len() == base.len() + 2 + di.len() + 1);
        assert(numbered_name(base, j).len() == base.len() + 2 + dj.len() + 1);
        assert(di.len() == dj.len());
        assert forall|u: int| 0 <= u < di.len() implies di[u] == dj[u] by {
            assert(numbered_name(base, i)[base.len() + 2 + u] == di[u]);
            assert(numbered_name(base, j)[base.len() + 2 + u] == dj[u]);
        }
        assert(di =~= dj);
        lemma_dec_of_injective(i, j);
    }
}

/// A real directory listing can never exhaust the probe: with fewer existing
/// entries than disambiguator values there is always a free destination name,
/// so admission never fails for want of one.
pub proof fn lemma_probe_never_exhausts(existing: Seq<Seq<char>>, base: Seq<char>)
    requires
        existing.len() < u32::MAX,
    ensures
        exists|i: nat| i < u32::MAX && #[trigger] name_is_free(existing, base, i),
{
    broadcast use vstd::seq_lib::seq_to_set_is_finite;

    if forall|i: nat| i < u32::MAX ==> !#[trigger] name_is_free(existing, base, i) {
        let f = |k: int| numbered_name(base, k as nat);
        let dom = set_int_range(0, u32::MAX as int);
        lemma_int_range(0, u32::MAX as int);
        assert(injective_on(f, dom)) by {
            assert forall|x1: int, x2: int|
                dom.contains(x1) && dom.contains(x2) && #[trigger] f(x1) == #[trigger] f(
                    x2,
                ) implies x1 == x2 by {
                lemma_numbered_name_injective(base, x1 as nat, x2 as nat);
            }
        }
        let image = dom.map(f);
        lemma_map_size(dom, image, f);
        assert(image.subset_of(existing.to_set())) by {
            assert forall|x: Seq<char>| image.contains(x) implies existing.to_set().contains(
                x,
            ) by {
                let a = choose|a: int| dom.contains(a) && x == f(a);
                assert(!name_is_free(existing, base, a as nat));
            }
        }
        existing.lemma_cardinality_of_set();
        lemma_len_subset(image, existing.to_set());
        assert(false);
    }
}

/// The destination name tried at probe step `i`.
pub fn numbered(base: &String, i: u32) -> (r: String)
    ensures
        r@ == numbered_name(base@, i as nat),
{
    if i == 0 {
        base.clone()
    } else {
        let mut r = base.clone();
        r.append(" (");
        r.append(u32_to_string(i).as_str());
        r.append(")");
        proof {
            reveal_strlit(" (");
            reveal_strlit(")");
            assert(r@ =~= numbered_name(base@, i as nat));
        }
        r
    }
}

/// Whether `name` is among the entries of `existing`.
pub fn contains_name(existing: &Vec<String>, name: &String) -> (r: bool)
    ensures
        r == existing.deep_view().contains(name@),
{
    let mut k: usize = 0;
    while k < existing.len()
        invariant
            0 <= k <= existing.len(),
            forall|j: int| 0 <= j < k ==> existing.deep_view()[j] != name@,
        decreases existing.len() - k,
    {
        proof {
            assert(existing.deep_view()[k as int] == existing@[k as int]@);
        }
        if (&existing[k]).eq(name) {
            return true;
        }
        k += 1;
    }
    proof {
        assert(forall|j: int| 0 <= j < existing.deep_view().len()
            ==> existing.deep_view()[j] != name@);
    }
    false
}

/// Resolves the name a newly admitted item takes inside the Blackhole
/// directory: the first of `base`, `base (1)`, `base (2)`, ... that does not
/// collide with an existing entry. Deterministic given the directory contents;
/// fails only when every disambiguator value collides.
pub fn resolve_destination_name(existing: &Vec<String>, base: &String) -> (r: Result<
    String,
    BlackholeError,
>)
    ensures
        match r {
            Ok(name) => exists|i: nat|
                {
                    &&& i < u32::MAX
                    &&& name@ == numbered_name(base@, i)
                    &&& #[trigger] name_is_free(existing.deep_view(), base@, i)
                    &&& forall|j: nat| j < i ==> !name_is_free(existing.deep_view(), base@, j)
                },
            Err(e) => {
                &&& e is ResourceExhausted
                &&& forall|i: nat|
                    i < u32::MAX ==> !name_is_free(existing.deep_view(), base@, i)
            },
        },
{
    let mut i: u32 = 0;
    loop
        invariant
            i < u32::MAX,
            forall|j: nat| j < i ==> !name_is_free(existing.deep_view(), base@, j),
        decreases u32::MAX - i,
    {
        let candidate = numbered(base, i);
        if !contains_name(existing, &candidate) {
            proof {
                assert(name_is_free(existing.deep_view(), base@, i as nat));
            }
            return Ok(candidate);
        }
        proof {
            assert(!name_is_free(existing.deep_view(), base@, i as nat));
        }
        i += 1;
        if i == u32::MAX {
            return Err(BlackholeError::ResourceExhausted);
        }
    }
}

} // verus!
