use vstd::prelude::*;
use vstd::string::StringExecFns;

use crate::paths::{joined, FsPath};

verus! {

/// Why a send was rejected before anything was moved.
#[derive(Clone, Copy, PartialEq, Eq, Structural, Debug)]
pub enum InvalidReason {
    /// The source path does not exist, or has no final name component.
    MissingSource,
    /// The source path is the Blackhole directory itself or already under it.
    AlreadyInBlackhole,
    /// The source is neither a regular file nor a directory.
    NotFileOrDirectory,
}

/// Every failure the library reports. Structural failures abort an operation;
/// the host logs cosmetic ones and carries on.
#[derive(Debug)]
pub enum BlackholeError {
    /// No Blackhole path could be resolved at all: no override was given and
    /// no home directory is discoverable.
    Configuration,
    /// A send-time precondition was violated; the Blackhole is unchanged.
    InvalidInput(InvalidReason),
    /// A directory or file operation failed; the paths name the move (for a
    /// failure that is not a move, both name the directory concerned).
    Io { source: FsPath, dest: FsPath },
    /// The trash submission failed; the staged batch is left on disk rather
    /// than destroying data.
    Trash,
    /// The collision probe ran out of disambiguator values.
    ResourceExhausted,
}

impl BlackholeError {
    /// The description of each failure, as the user sees it: a move failure
    /// names both the source and the destination path for diagnosis.
    pub open spec fn message_spec(&self) -> Seq<char> {
        match self {
            BlackholeError::Configuration => "No home directory or BLACKHOLE_DIR override set"@,
            BlackholeError::InvalidInput(InvalidReason::MissingSource) => "File does not exist"@,
            BlackholeError::InvalidInput(InvalidReason::AlreadyInBlackhole) => "This file or folder is already in your Blackhole"@,
            BlackholeError::InvalidInput(InvalidReason::NotFileOrDirectory) => "Path provided was not a file or directory"@,
            BlackholeError::Io { source, dest } => "Failed to move file/folder to Blackhole: "@
                + joined(source@) + " -> "@ + joined(dest@),
            BlackholeError::Trash => "Failed to move the purge batch to the trash"@,
            BlackholeError::ResourceExhausted => "File already exists"@,
        }
    }

    /// The description of the failure; a move failure names both paths.
    pub fn message(&self) -> (r: String)
        ensures
            r@ == self.message_spec(),
    {
        match self {
            BlackholeError::Configuration => "No home directory or BLACKHOLE_DIR override set".to_owned(),
            BlackholeError::InvalidInput(InvalidReason::MissingSource) => "File does not exist".to_owned(),
            BlackholeError::InvalidInput(InvalidReason::AlreadyInBlackhole) => "This file or folder is already in your Blackhole".to_owned(),
            BlackholeError::InvalidInput(InvalidReason::NotFileOrDirectory) => "Path provided was not a file or directory".to_owned(),
            BlackholeError::Io { source, dest } => {
                let mut r = "Failed to move file/folder to Blackhole: ".to_owned();
                r.append(source.render().as_str());
                r.append(" -> ");
                r.append(dest.render().as_str());
                proof {
                    assert(r@ =~= self.message_spec());
                }
                r
            },
            BlackholeError::Trash => "Failed to move the purge batch to the trash".to_owned(),
            BlackholeError::ResourceExhausted => "File already exists".to_owned(),
        }
    }
}

} // verus!
