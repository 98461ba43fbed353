//! The flags that the resolvers' decisions depend on.
use vstd::prelude::*;

verus! {

/// The open flags that a lookup's decisions read. The caller keeps the full
/// kernel flags for the system calls and describes them here.
#[derive(PartialEq, Eq, Structural, Debug, Clone, Copy)]
pub struct OpenFlags {
    /// `O_PATH`.
    pub path: bool,
    /// `O_NOFOLLOW`.
    pub nofollow: bool,
    /// `O_DIRECTORY`.
    pub directory: bool,
    /// `O_CREAT`.
    pub creat: bool,
    /// `O_EXCL`.
    pub excl: bool,
    /// `O_TMPFILE` (all of its bits).
    pub tmpfile: bool,
}

impl OpenFlags {
    /// No flag set (`O_RDONLY`).
    pub fn empty() -> (r: Self)
        ensures
            !r.path && !r.nofollow && !r.directory && !r.creat && !r.excl && !r.tmpfile,
    {
        OpenFlags {
            path: false,
            nofollow: false,
            directory: false,
            creat: false,
            excl: false,
            tmpfile: false,
        }
    }
}

/// Flags that change how a path is resolved.
#[derive(PartialEq, Eq, Structural, Debug, Clone, Copy)]
pub struct ResolverFlags {
    /// Refuse every symlink on the way (`RESOLVE_NO_SYMLINKS`).
    pub no_symlinks: bool,
}

impl ResolverFlags {
    pub fn empty() -> (r: Self)
        ensures
            !r.no_symlinks,
    {
        ResolverFlags { no_symlinks: false }
    }
}

} // verus!
