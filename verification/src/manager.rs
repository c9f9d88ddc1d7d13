use vstd::prelude::*;

use crate::admission::{
    admission_outcome, name_is_free, numbered_name, resolve_destination_name, EntryKind, MovePlan,
};
use crate::errors::{BlackholeError, InvalidReason};
use crate::host;
use crate::paths::{is_prefix_of, FsPath};
use crate::platform::{is_skip_name, should_skip_purge_file, Platform};
use crate::purge::{blackhole_dir_name, blackhole_name};

verus! {

/// How the host's attempt to create the Blackhole directory ended.
#[derive(Clone, Copy, PartialEq, Eq, Structural, Debug)]
pub enum CreateDirOutcome {
    /// The directory was created.
    Created,
    /// The directory was already there.
    AlreadyExisted,
    /// Creation failed for any other reason.
    Failed,
}

/// The managed drop folder. Its path is resolved once, at construction, and
/// never changes for the life of the process.
#[derive(Debug)]
pub struct Blackhole {
    pub path: FsPath,
}

impl Blackhole {
    /// Determines the Blackhole path: an explicit override wins; otherwise the
    /// reserved name under the home directory; with neither available, no
    /// Blackhole can be resolved at all.
    pub fn resolve(override_dir: Option<FsPath>, home: Option<FsPath>) -> (r: Result<
        FsPath,
        BlackholeError,
    >)
        ensures
            match r {
                Ok(p) => match override_dir {
                    Some(o) => p@ == o@,
                    None => home matches Some(h) && p@ == h@.push(blackhole_name()),
                },
                Err(e) => e is Configuration && override_dir is None && home is None,
            },
    {
        match override_dir {
            Some(o) => Ok(o),
            None => match home {
                Some(h) => Ok(h.join(&blackhole_dir_name())),
                None => Err(BlackholeError::Configuration),
            },
        }
    }

    /// Builds the manager, resolving the folder path from the override the
    /// host read from its environment, or from the home directory.
    pub fn new(override_dir: Option<FsPath>) -> (r: Result<Blackhole, BlackholeError>)
        ensures
            match r {
                Ok(b) => {
                    &&& override_dir matches Some(o) ==> b.path@ == o@
                    &&& override_dir is None ==> b.path@.len() > 0 && b.path@.last()
                        == blackhole_name()
                },
                Err(e) => e is Configuration && override_dir is None,
            },
    {
        let home = host::home_dir();
        match Self::resolve(override_dir, home) {
            Ok(path) => Ok(Blackhole { path }),
            Err(e) => Err(e),
        }
    }

    /// Classifies the host's attempt to create the Blackhole directory:
    /// "already exists" counts as success, anything else that failed is an
    /// input/output error on the folder itself.
    pub fn initialize(&self, outcome: CreateDirOutcome) -> (r: Result<(), BlackholeError>)
        ensures
            r is Ok <==> !(outcome is Failed),
            r matches Err(e) ==> (e matches BlackholeError::Io { source, dest } && source@
                == self.path@ && dest@ == self.path@),
    {
        match outcome {
            CreateDirOutcome::Failed => Err(
                BlackholeError::Io { source: self.path.clone(), dest: self.path.clone() },
            ),
            _ => Ok(()),
        }
    }

    /// Whether the directory listing holds nothing but platform sidecar files.
    pub fn is_empty(&self, entries: &Vec<String>, platform: Platform) -> (r: bool)
        ensures
            r <==> forall|i: int|
                0 <= i < entries.deep_view().len() ==> is_skip_name(
                    platform,
                    #[trigger] entries.deep_view()[i],
                ),
    {
        let mut k: usize = 0;
        while k < entries.len()
            invariant
                0 <= k <= entries.len(),
                forall|j: int|
                    0 <= j < k ==> is_skip_name(platform, #[trigger] entries.deep_view()[j]),
            decreases entries.len() - k,
        {
            proof {
                assert(entries.deep_view()[k as int] == entries@[k as int]@);
            }
            if !should_skip_purge_file(platform, &entries[k]) {
                return false;
            }
            k += 1;
        }
        true
    }

    /// Admits one file or directory: checks the send preconditions, resolves a
    /// collision-free destination name, and returns the one move the host must
    /// perform. Nothing is moved when an error is returned.
    pub fn send(&self, source: &FsPath, kind: EntryKind, existing: &Vec<String>) -> (r: Result<
        MovePlan,
        BlackholeError,
    >)
        ensures
            match r {
                Ok(plan) => {
                    &&& admission_outcome(self.path@, source@, kind) is None
                    &&& plan.from@ == source@
                    &&& exists|i: nat|
                        {
                            &&& i < u32::MAX
                            &&& plan.to@ == self.path@.push(numbered_name(source@.last(), i))
                            &&& #[trigger] name_is_free(existing.deep_view(), source@.last(), i)
                            &&& forall|j: nat|
                                j < i ==> !name_is_free(existing.deep_view(), source@.last(), j)
                        }
                },
                Err(e) => match e {
                    BlackholeError::InvalidInput(InvalidReason::MissingSource) => kind is Missing
                        || source@.len() == 0,
                    BlackholeError::InvalidInput(InvalidReason::AlreadyInBlackhole) => {
                        &&& !(kind is Missing)
                        &&& source@.len() > 0
                        &&& is_prefix_of(self.path@, source@)
                    },
                    BlackholeError::InvalidInput(InvalidReason::NotFileOrDirectory) => {
                        &&& admission_outcome(self.path@, source@, kind) == Some(
                            InvalidReason::NotFileOrDirectory,
                        )
                        &&& exists|i: nat|
                            i < u32::MAX && #[trigger] name_is_free(
                                existing.deep_view(),
                                source@.last(),
                                i,
                            )
                    },
                    BlackholeError::ResourceExhausted => {
                        &&& !(kind is Missing)
                        &&& source@.len() > 0
                        &&& !is_prefix_of(self.path@, source@)
                        &&& forall|i: nat|
                            i < u32::MAX ==> !name_is_free(
                                existing.deep_view(),
                                source@.last(),
                                i,
                            )
                    },
                    _ => false,
                },
            },
    {
        match kind {
            EntryKind::Missing => {
                return Err(BlackholeError::InvalidInput(InvalidReason::MissingSource));
            },
            _ => {},
        }
        let base = match source.file_name() {
            None => {
                return Err(BlackholeError::InvalidInput(InvalidReason::MissingSource));
            },
            Some(n) => n,
        };
        if source.starts_with(&self.path) {
            return Err(BlackholeError::InvalidInput(InvalidReason::AlreadyInBlackhole));
        }
        let dest_name = match resolve_destination_name(existing, base) {
            Ok(n) => n,
            Err(e) => {
                return Err(e);
            },
        };
        match kind {
            EntryKind::File | EntryKind::Directory => {},
            _ => {
                return Err(BlackholeError::InvalidInput(InvalidReason::NotFileOrDirectory));
            },
        }
        Ok(MovePlan { from: source.clone(), to: self.path.join(&dest_name) })
    }
}

} // verus!
