use vstd::prelude::*;
use vstd::string::StringExecFns;

verus! {

/// An absolute filesystem path, modeled as its sequence of name components.
/// The host process converts between its native path type and this one; the
/// library only ever reasons about the component sequence.
#[derive(Debug)]
pub struct FsPath {
    components: Vec<String>,
}

impl View for FsPath {
    type V = Seq<Seq<char>>;

    closed spec fn view(&self) -> Seq<Seq<char>> {
        self.components.deep_view()
    }
}

/// `p` names the same node as `q` or an ancestor of it.
pub open spec fn is_prefix_of(p: Seq<Seq<char>>, q: Seq<Seq<char>>) -> bool {
    &&& p.len() <= q.len()
    &&& forall|i: int| 0 <= i < p.len() ==> q[i] == p[i]
}

/// The textual rendering of a path: its components joined by `/`.
pub open spec fn joined(p: Seq<Seq<char>>) -> Seq<char>
    decreases p.len(),
{
    if p.len() == 0 {
        Seq::empty()
    } else if p.len() == 1 {
        p[0]
    } else {
        joined(p.drop_last()) + seq!['/'] + p.last()
    }
}

impl FsPath {
    /// The empty path (no components).
    pub fn new() -> (r: FsPath)
        ensures
            r@ == Seq::<Seq<char>>::empty(),
    {
        let r = FsPath { components: Vec::new() };
        proof {
            assert(r@ =~= Seq::<Seq<char>>::empty());
        }
        r
    }

    /// A path made of the given components, outermost first.
    pub fn from_components(components: Vec<String>) -> (r: FsPath)
        ensures
            r@ == components.deep_view(),
    {
        FsPath { components }
    }

    /// The components, outermost first.
    pub fn as_components(&self) -> (r: &Vec<String>)
        ensures
            r.deep_view() == self@,
    {
        &self.components
    }

    /// How many components the path has.
    pub fn depth(&self) -> (r: usize)
        ensures
            r == self@.len(),
    {
        self.components.len()
    }

    /// Appends one component in place.
    pub fn push(&mut self, name: String)
        ensures
            final(self)@ == old(self)@.push(name@),
    {
        self.components.push(name);
        proof {
            assert(self@ =~= old(self)@.push(name@));
        }
    }

    /// The path extended by one component.
    pub fn join(&self, name: &String) -> (r: FsPath)
        ensures
            r@ == self@.push(name@),
    {
        let mut components = self.components.clone();
        components.push(name.clone());
        let r = FsPath { components };
        proof {
            assert(r@ =~= self@.push(name@));
        }
        r
    }

    /// The final name component, if any.
    pub fn file_name(&self) -> (r: Option<&String>)
        ensures
            match r {
                Some(n) => self@.len() > 0 && n@ == self@.last(),
                None => self@.len() == 0,
            },
    {
        if self.components.len() == 0 {
            None
        } else {
            Some(&self.components[self.components.len() - 1])
        }
    }

    /// The path as text, its components joined by `/`, for messages.
    pub fn render(&self) -> (r: String)
        ensures
            r@ == joined(self@),
    {
        let mut r = String::new();
        let mut k: usize = 0;
        while k < self.components.len()
            invariant
                0 <= k <= self@.len(),
                self@.len() == self.components@.len(),
                r@ == joined(self@.subrange(0, k as int)),
            decreases self@.len() - k,
        {
            if k > 0 {
                r.append("/");
            }
            r.append(self.components[k].as_str());
            proof {
                reveal_strlit("/");
                let pre = self@.subrange(0, k as int);
                let post = self@.subrange(0, k + 1);
                assert(self@[k as int] == self.components@[k as int]@);
                assert(post.drop_last() =~= pre);
                assert(post.last() == self@[k as int]);
                assert(r@ =~= joined(post));
            }
            k += 1;
        }
        proof {
            assert(self@.subrange(0, self@.len() as int) =~= self@);
        }
        r
    }

    /// Whether `prefix` names this path or one of its ancestors.
    pub fn starts_with(&self, prefix: &FsPath) -> (r: bool)
        ensures
            r == is_prefix_of(prefix@, self@),
    {
        if prefix.components.len() > self.components.len() {
            return false;
        }
        let mut i: usize = 0;
        while i < prefix.components.len()
            invariant
                0 <= i <= prefix@.len() <= self@.len(),
                forall|j: int| 0 <= j < i ==> self@[j] == prefix@[j],
            decreases prefix@.len() - i,
        {
            proof {
                assert(self@[i as int] == self.components@[i as int]@);
                assert(prefix@[i as int] == prefix.components@[i as int]@);
            }
            if !(&self.components[i]).eq(&prefix.components[i]) {
                return false;
            }
            i += 1;
        }
        true
    }
}

impl Clone for FsPath {
    /// Cloning keeps the components.
    fn clone(&self) -> (r: Self)
        ensures
            r@ == self@,
    {
        FsPath { components: self.components.clone() }
    }
}

} // verus!
