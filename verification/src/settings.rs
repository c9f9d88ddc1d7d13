use vstd::prelude::*;

use crate::paths::FsPath;

verus! {

/// Where the Blackhole folder lives: under the home directory, or at a custom
/// location the user chose.
#[derive(Debug)]
pub enum FolderLocation {
    HomeDir(FsPath),
    Custom(FsPath),
}

impl FolderLocation {
    /// The path this location names, whichever way it was chosen.
    pub open spec fn path_spec(&self) -> Seq<Seq<char>> {
        match self {
            FolderLocation::HomeDir(p) => p@,
            FolderLocation::Custom(p) => p@,
        }
    }

    /// The path this location names.
    pub fn path(&self) -> (r: &FsPath)
        ensures
            r@ == self.path_spec(),
    {
        match self {
            FolderLocation::HomeDir(p) => p,
            FolderLocation::Custom(p) => p,
        }
    }

    /// The default location: the home directory when the platform knows one,
    /// otherwise the fallback directory the host supplies (its temporary
    /// directory).
    pub fn resolve_default(home: Option<FsPath>, fallback: FsPath) -> (r: FolderLocation)
        ensures
            match home {
                Some(h) => r matches FolderLocation::HomeDir(p) && p@ == h@,
                None => r matches FolderLocation::Custom(p) && p@ == fallback@,
            },
    {
        match home {
            Some(h) => FolderLocation::HomeDir(h),
            None => FolderLocation::Custom(fallback),
        }
    }
}

/// The tool's persisted configuration. It is constructed once and handed to
/// whoever needs it; the host is responsible for reading and writing the
/// settings file.
#[derive(Debug)]
pub struct Settings {
    pub folder_location: FolderLocation,
}

impl Settings {
    /// Where the settings file lives: `BLACKHOLE/settings.json` under the
    /// configuration directory the host resolved.
    pub fn path(config_dir: &FsPath) -> (r: FsPath)
        ensures
            r@ == config_dir@.push("BLACKHOLE"@).push("settings.json"@),
    {
        let below = config_dir.join(&"BLACKHOLE".to_owned());
        below.join(&"settings.json".to_owned())
    }

    /// Where the settings file lives, when the platform has a configuration
    /// directory at all.
    pub fn settings_file() -> (r: Option<FsPath>)
        ensures
            r matches Some(p) ==> p@.len() >= 2 && p@[p@.len() - 2] == "BLACKHOLE"@ && p@.last()
                == "settings.json"@,
    {
        match crate::host::config_dir() {
            Some(conf) => Some(Self::path(&conf)),
            None => None,
        }
    }

    /// The default settings: the Blackhole under the home directory when the
    /// platform knows one, otherwise under the fallback directory the host
    /// names (its temporary directory).
    pub fn defaults(fallback: FsPath) -> (r: Settings)
        ensures
            r.folder_location matches FolderLocation::Custom(p) ==> p@ == fallback@,
    {
        Settings {
            folder_location: FolderLocation::resolve_default(crate::host::home_dir(), fallback),
        }
    }
}

} // verus!
