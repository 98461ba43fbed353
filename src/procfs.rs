//! The procfs handle: which base directory an operation starts from, how a
//! handle is built and when it may be cached, and the checks that keep every
//! lookup on the same procfs mount.
use crate::decimal::{ascii_bytes, ascii_of, dec_bytes, push_decimal};
use crate::error::{Error, ErrorKind, ENOENT, ELOOP, EXDEV};
use crate::kernel_version::{kver_cmp, KernelVersion};
use crate::flags::OpenFlags;
use crate::path::{path_split, path_strip_trailing_slash, spec_path_split, spec_strip_trailing_slash, views};
use std::cmp::Ordering;
use vstd::prelude::*;

verus! {

/// The base directory of a procfs operation.
#[derive(PartialEq, Eq, Structural, Debug, Clone, Copy)]
pub enum ProcfsBase {
    /// `/proc` itself.
    ProcRoot,
    /// `/proc/<pid>`.
    ProcPid(u32),
    /// `/proc/self`.
    ProcSelf,
    /// `/proc/thread-self`, falling back to `/proc/self/task/<tid>` and then
    /// to `/proc/self` on kernels or mounts that lack it.
    ProcThreadSelf,
}

/// The paths that may stand for a base, in order of preference.
pub open spec fn base_candidates(base: ProcfsBase, tid: u32) -> Seq<Seq<u8>> {
    match base {
        ProcfsBase::ProcRoot => seq![ascii_of("."@)],
        ProcfsBase::ProcSelf => seq![ascii_of("self"@)],
        ProcfsBase::ProcPid(pid) => seq![dec_bytes(pid as nat)],
        ProcfsBase::ProcThreadSelf => seq![
            ascii_of("thread-self"@),
            ascii_of("self/task/"@) + dec_bytes(tid as nat),
            ascii_of("self"@),
        ],
    }
}

/// The first candidate from `i` on that is known to exist.
pub open spec fn first_existing(c: Seq<Seq<u8>>, exists: Seq<bool>, i: nat) -> Option<Seq<u8>>
    decreases c.len() - i,
{
    if i >= c.len() {
        None
    } else if i < exists.len() && exists[i as int] {
        Some(c[i as int])
    } else {
        first_existing(c, exists, i + 1)
    }
}

/// The path of a base: the only candidate when there is one, else the first
/// candidate that exists.
pub open spec fn spec_into_path(base: ProcfsBase, tid: u32, exists: Seq<bool>) -> Option<Seq<u8>> {
    let c = base_candidates(base, tid);
    if c.len() == 1 {
        Some(c[0])
    } else {
        first_existing(c, exists, 0)
    }
}

impl ProcfsBase {
    /// The relative paths inside procfs that may stand for this base, in
    /// order of preference; `tid` is the calling thread's id.
    pub fn candidates(self, tid: u32) -> (r: Vec<Vec<u8>>)
        ensures
            views(r@) == base_candidates(self, tid),
    {
        proof {
            reveal_strlit(".");
            reveal_strlit("self");
            reveal_strlit("thread-self");
            reveal_strlit("self/task/");
        }
        let r = match self {
            ProcfsBase::ProcRoot => vec![ascii_bytes(".")],
            ProcfsBase::ProcSelf => vec![ascii_bytes("self")],
            ProcfsBase::ProcPid(pid) => {
                let mut p: Vec<u8> = Vec::new();
                push_decimal(&mut p, pid as u64);
                assert(p@ =~= dec_bytes(pid as nat));
                vec![p]
            },
            ProcfsBase::ProcThreadSelf => {
                let mut task = ascii_bytes("self/task/");
                push_decimal(&mut task, tid as u64);
                vec![ascii_bytes("thread-self"), task, ascii_bytes("self")]
            },
        };
        assert(views(r@) =~= base_candidates(self, tid));
        r
    }

    /// The path of this base relative to the procfs root. `exists[i]` says
    /// whether candidate `i` of [`ProcfsBase::candidates`] exists; it is only
    /// consulted for `ProcThreadSelf`, the one base with fallbacks.
    pub fn into_path(self, tid: u32, exists: &[bool]) -> (r: Option<Vec<u8>>)
        ensures
            r matches Some(p) ==> spec_into_path(self, tid, exists@) == Some(p@),
            r is None ==> spec_into_path(self, tid, exists@) is None,
    {
        let mut c = self.candidates(tid);
        let ghost cs = views(c@);
        if c.len() == 1 {
            let p = c.swap_remove(0);
            return Some(p);
        }
        let mut i: usize = 0;
        while i < c.len()
            invariant
                views(c@) == cs,
                cs == base_candidates(self, tid),
                cs.len() != 1,
                i <= c@.len(),
                first_existing(cs, exists@, 0) == first_existing(cs, exists@, i as nat),
            decreases c@.len() - i,
        {
            if i < exists.len() && exists[i] {
                let p = c.swap_remove(i);
                assert(p@ == cs[i as int]);
                return Some(p);
            }
            i = i + 1;
        }
        None
    }
}

/// The path below `/proc/self` of the magic-link to a file descriptor:
/// `fd/<n>`. Reading it gives the kernel's path of the descriptor.
pub fn fd_link_path(fd: u32) -> (r: Vec<u8>)
    ensures
        r@ == ascii_of("fd/"@) + dec_bytes(fd as nat),
{
    proof {
        reveal_strlit("fd/");
    }
    let mut p = ascii_bytes("fd/");
    push_decimal(&mut p, fd as u64);
    p
}

/// Builder of a procfs handle.
#[derive(Clone, Debug)]
pub struct ProcfsHandleBuilder {
    /// Whether to ask for `subset=pid`, which hides every global procfs file.
    pub subset_pid: bool,
}

impl Default for ProcfsHandleBuilder {
    fn default() -> (r: Self)
        ensures
            r.subset_pid,
    {
        Self::new()
    }
}

impl ProcfsHandleBuilder {
    /// A builder with the recommended configuration (`subset=pid`).
    pub fn new() -> (r: Self)
        ensures
            r.subset_pid,
    {
        Self { subset_pid: true }
    }

    /// Specify whether to try to set `subset=pid` on the handle.
    pub fn subset_pid(self, subset_pid: bool) -> (r: Self)
        ensures
            r.subset_pid == subset_pid,
    {
        let mut b = self;
        b.set_subset_pid(subset_pid);
        b
    }

    /// Setter form of [`ProcfsHandleBuilder::subset_pid`].
    pub fn set_subset_pid(&mut self, subset_pid: bool) -> (r: &mut Self)
        ensures
            r.subset_pid == subset_pid,
            *final(self) == *final(r),
    {
        self.subset_pid = subset_pid;
        self
    }

    /// Clear every restriction of the handle.
    pub fn unmasked(self) -> (r: Self)
        ensures
            !r.subset_pid,
    {
        let mut b = self;
        b.set_unmasked();
        b
    }

    /// Setter form of [`ProcfsHandleBuilder::unmasked`].
    pub fn set_unmasked(&mut self) -> (r: &mut Self)
        ensures
            !r.subset_pid,
            *final(self) == *final(r),
    {
        self.subset_pid = false;
        self
    }

    /// Whether this builder asks for a handle that may be cached.
    pub fn is_cache_friendly(&self) -> (r: bool)
        ensures
            r == self.subset_pid,
    {
        self.subset_pid
    }

    /// The ways of making a procfs handle to try, in order: a new procfs
    /// mount, a detached copy of `/proc`, a recursive one, and last the
    /// global `/proc`. The first three need the new mount API, which is only
    /// trusted on Linux 5.2 or later.
    pub fn strategies(&self, host: &KernelVersion) -> (r: Vec<ProcfsStrategy>)
        ensures
            r@ == spec_strategies(self.subset_pid, has_mount_api(host@)),
    {
        let mut r: Vec<ProcfsStrategy> = Vec::new();
        if has_unbroken_mount_api(host) {
            r.push(ProcfsStrategy::Fsopen { subset_pid: self.subset_pid });
            r.push(ProcfsStrategy::OpenTree);
            r.push(ProcfsStrategy::OpenTreeRecursive);
        }
        r.push(ProcfsStrategy::UnsafeOpen);
        assert(r@ =~= spec_strategies(self.subset_pid, has_mount_api(host@)));
        r
    }
}

/// A way of making a procfs handle.
#[derive(PartialEq, Eq, Structural, Debug, Clone, Copy)]
pub enum ProcfsStrategy {
    /// `fsopen("proc")` and `fsmount`, asking for `hidepid=ptraceable` and
    /// `subset=pid` when `subset_pid` is set.
    Fsopen { subset_pid: bool },
    /// `open_tree("/proc", OPEN_TREE_CLONE)`.
    OpenTree,
    /// `open_tree("/proc", OPEN_TREE_CLONE | AT_RECURSIVE)`.
    OpenTreeRecursive,
    /// A plain `open("/proc")`: not safe against mount races.
    UnsafeOpen,
}

pub open spec fn spec_strategies(subset_pid: bool, mount_api: bool) -> Seq<ProcfsStrategy> {
    if mount_api {
        seq![
            ProcfsStrategy::Fsopen { subset_pid },
            ProcfsStrategy::OpenTree,
            ProcfsStrategy::OpenTreeRecursive,
            ProcfsStrategy::UnsafeOpen,
        ]
    } else {
        seq![ProcfsStrategy::UnsafeOpen]
    }
}

/// Whether a kernel is new enough (5.2) for its new mount API to be used.
pub open spec fn has_mount_api(host: Seq<u64>) -> bool {
    kver_cmp(host, seq![5u64, 2u64]) != Ordering::Less
}

/// Whether the running kernel's new mount API may be used: older kernels are
/// known to carry broken backports of it.
pub fn has_unbroken_mount_api(host: &KernelVersion) -> (r: bool)
    ensures
        r == has_mount_api(host@),
{
    let min = KernelVersion(vec![5u64, 2u64]);
    assert(min@ =~= seq![5u64, 2u64]);
    match host.cmp(&min) {
        Ordering::Less => false,
        _ => true,
    }
}

/// The properties of a procfs handle, recorded when it is made.
#[derive(PartialEq, Eq, Structural, Debug, Clone, Copy)]
pub struct ProcfsProps {
    /// The mount id of the procfs root.
    pub mnt_id: u64,
    /// Whether the mount hides global files (`subset=pid` or `hidepid=`).
    pub is_subset: bool,
    /// Whether `..` of the root stays on the same mount.
    pub is_detached: bool,
}

impl ProcfsProps {
    /// Record the properties of a procfs root: it is restricted when `stat`
    /// (hidden by `subset=pid`) or `1` (hidden by `hidepid=`) cannot be
    /// seen, and detached when its `..` is a procfs root on the same mount.
    pub fn new(mnt_id: u64, stat_visible: bool, pid1_visible: bool, dotdot_same_root: bool) -> (r:
        Self)
        ensures
            r.mnt_id == mnt_id,
            r.is_subset == (!stat_visible || !pid1_visible),
            r.is_detached == dotdot_same_root,
    {
        ProcfsProps {
            mnt_id,
            is_subset: !stat_visible || !pid1_visible,
            is_detached: dotdot_same_root,
        }
    }

    /// Whether a handle may be kept in the process-wide cache: only one the
    /// library owns, that is both restricted and detached.
    pub fn is_cacheable(&self, owned: bool) -> (r: bool)
        ensures
            r == (owned && self.is_subset && self.is_detached),
    {
        owned && self.is_subset && self.is_detached
    }

    /// Whether a failed lookup is retried once through a fresh unmasked
    /// handle: when this handle is restricted and the lookup found nothing.
    pub fn retry_unmasked(&self, err: &Error) -> (r: bool)
        ensures
            r == (self.is_subset && err.spec_kind() == ErrorKind::OsError(Some(ENOENT))),
    {
        self.is_subset && err.kind() == ErrorKind::OsError(Some(ENOENT))
    }
}

/// Check that a descriptor reached by a lookup is on the expected mount; a
/// mismatch looks like the `EXDEV` of `RESOLVE_NO_XDEV`.
pub fn verify_same_mnt(root_mnt_id: u64, mnt_id: u64) -> (r: Result<(), Error>)
    ensures
        r is Ok <==> root_mnt_id == mnt_id,
        r matches Err(e) ==> e.spec_kind() == ErrorKind::OsError(Some(EXDEV)),
{
    if root_mnt_id != mnt_id {
        return Err(
            Error::os("verify lookup is still in the same mount", EXDEV).wrap(
                "mount id mismatch in restricted procfs resolver",
            ),
        );
    }
    Ok(())
}

/// The `f_type` that `fstatfs` reports for procfs.
pub const PROC_SUPER_MAGIC: i64 = 0x9fa0;

/// The inode number of the root of every procfs mount.
pub const PROC_ROOT_INO: u64 = 1;

/// The `f_type` of the anonymous-inode filesystem.
pub const ANON_INODE_FS_MAGIC: i64 = 0x0904_1934;

/// Whether a filesystem can hold magic-links, so that reading an absolute
/// symlink there may teleport the walker: procfs and the anonymous-inode
/// filesystem.
pub fn is_magiclink_filesystem(f_type: i64) -> (r: bool)
    ensures
        r == (f_type == PROC_SUPER_MAGIC || f_type == ANON_INODE_FS_MAGIC),
{
    f_type == PROC_SUPER_MAGIC || f_type == ANON_INODE_FS_MAGIC
}

/// Check that a filesystem type is procfs (`EXDEV` otherwise).
pub fn verify_is_procfs(f_type: i64) -> (r: Result<(), Error>)
    ensures
        r is Ok <==> f_type == PROC_SUPER_MAGIC,
        r matches Err(e) ==> e.spec_kind() == ErrorKind::OsError(Some(EXDEV)),
{
    if f_type != PROC_SUPER_MAGIC {
        return Err(
            Error::os("verify fd is from procfs", EXDEV).wrap(
                "fstype mismatch in restricted procfs resolver",
            ),
        );
    }
    Ok(())
}

/// Check that a descriptor is the root of a procfs mount: procfs, and the
/// root inode (a safety violation otherwise).
pub fn verify_is_procfs_root(f_type: i64, ino: u64) -> (r: Result<(), Error>)
    ensures
        r is Ok <==> (f_type == PROC_SUPER_MAGIC && ino == PROC_ROOT_INO),
        r matches Err(e) ==> (if f_type != PROC_SUPER_MAGIC {
            e.spec_kind() == ErrorKind::OsError(Some(EXDEV))
        } else {
            e.spec_kind() == ErrorKind::SafetyViolation
        }),
{
    verify_is_procfs(f_type)?;
    if ino != PROC_ROOT_INO {
        return Err(Error::safety_violation("/proc is not root of a procfs mount"));
    }
    Ok(())
}


/// What `open_follow` does once its safe first attempt failed.
#[derive(PartialEq, Eq, Structural, Debug, Clone, Copy)]
pub enum FollowAfterError {
    /// Retry once through a fresh unmasked handle.
    RetryUnmasked,
    /// The lookup met a magic-link: open the parent safely and follow the
    /// trailing component alone.
    OpenMagicLink,
    /// Return the error.
    Fail,
}

/// Decide what `open_follow` does after its first attempt failed with
/// `err`: a restricted handle that found nothing retries unmasked; `ELOOP`
/// means a magic-link was met; anything else fails.
pub fn open_follow_after_error(props: &ProcfsProps, err: &Error) -> (r: FollowAfterError)
    ensures
        r == (if props.is_subset && err.spec_kind() == ErrorKind::OsError(Some(ENOENT)) {
            FollowAfterError::RetryUnmasked
        } else if err.spec_kind() == ErrorKind::OsError(Some(ELOOP)) {
            FollowAfterError::OpenMagicLink
        } else {
            FollowAfterError::Fail
        }),
{
    if props.retry_unmasked(err) {
        FollowAfterError::RetryUnmasked
    } else if err.kind() == ErrorKind::OsError(Some(ELOOP)) {
        FollowAfterError::OpenMagicLink
    } else {
        FollowAfterError::Fail
    }
}

/// The flags of `open`: `O_NOFOLLOW` is always added, so that no trailing
/// symlink (and no magic-link) is ever followed.
pub fn open_flags(oflags: OpenFlags) -> (r: OpenFlags)
    ensures
        r == (OpenFlags { nofollow: true, ..oflags }),
{
    OpenFlags { nofollow: true, ..oflags }
}

/// The path and flags of `open_follow`: trailing slashes are dropped and
/// imply `O_DIRECTORY`.
pub fn open_follow_request(subpath: &[u8], oflags: OpenFlags) -> (r: (Vec<u8>, OpenFlags))
    ensures
        r.0@ == spec_strip_trailing_slash(subpath@).0,
        r.1 == (if spec_strip_trailing_slash(subpath@).1 {
            OpenFlags { directory: true, ..oflags }
        } else {
            oflags
        }),
{
    let (stripped, trailing_slash) = path_strip_trailing_slash(subpath);
    if trailing_slash {
        (stripped, OpenFlags { directory: true, ..oflags })
    } else {
        (stripped, oflags)
    }
}

/// Split the path of a magic-link into the parent to open safely and the
/// trailing component to follow; a path with no trailing component is an
/// invalid argument.
pub fn magic_link_parts(subpath: &[u8]) -> (r: Result<(Vec<u8>, Vec<u8>), Error>)
    ensures
        r is Ok <==> spec_path_split(subpath@).1 is Some,
        r matches Ok(p) ==> p.0@ == spec_path_split(subpath@).0 && Some(p.1@) == spec_path_split(
            subpath@,
        ).1,
        r matches Err(e) ==> e.spec_kind() == ErrorKind::InvalidArgument,
{
    let (parent, trailing) = path_split(subpath);
    match trailing {
        Some(t) => Ok((parent, t)),
        None => Err(Error::invalid_argument("path", "proc_open_follow path has trailing slash")),
    }
}

} // verus!
