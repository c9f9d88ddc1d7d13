use vstd::prelude::*;

verus! {

/// The platform the tool runs on. The platform decides which sidecar files a
/// purge must skip and which shell decorations the host applies; it is fixed
/// for a given build.
#[derive(Clone, Copy, PartialEq, Eq, Structural, Debug)]
pub enum Platform {
    Windows,
    MacOS,
    Other,
}

/// The platform sidecar names that a purge must never treat as user content:
/// the shell metadata written next to the folder's own decoration.
pub open spec fn is_skip_name(platform: Platform, name: Seq<char>) -> bool {
    match platform {
        Platform::Windows => name == "desktop.ini"@,
        Platform::MacOS => name == ".DS_Store"@ || name == "Icon\r"@,
        Platform::Other => false,
    }
}

/// Whether a purge must leave the entry with this name alone: true exactly for
/// the platform's sidecar metadata files, never for user content.
pub fn should_skip_purge_file(platform: Platform, name: &String) -> (r: bool)
    ensures
        r == is_skip_name(platform, name@),
{
    match platform {
        Platform::Windows => name.eq(&"desktop.ini".to_owned()),
        Platform::MacOS => name.eq(&".DS_Store".to_owned()) || name.eq(&"Icon\r".to_owned()),
        Platform::Other => false,
    }
}

} // verus!
