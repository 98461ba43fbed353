//! The restricted resolver used inside procfs. It refuses `..`, absolute
//! paths and anything that looks like a magic-link, so that it never needs
//! procfs to check itself. The kernel's `openat2` does the same in one call;
//! this is the step-by-step emulation, with the system calls left to the
//! caller.
use crate::error::{Error, ErrorKind, ELOOP, ENOTDIR, EXDEV};
use crate::flags::{OpenFlags, ResolverFlags};
use crate::path::{is_absolute, path_is_absolute, raw_components, split_slash, views, DOT};
use vstd::prelude::*;

verus! {

/// The most symlinks one lookup follows.
pub const MAX_SYMLINK_TRAVERSALS: usize = 128;

/// Check the flags of a procfs lookup: creating files has no place there.
pub fn check_procfs_flags(oflags: OpenFlags) -> (r: Result<(), Error>)
    ensures
        r is Ok <==> !(oflags.creat || oflags.excl || oflags.tmpfile),
        r matches Err(e) ==> e.spec_kind() == ErrorKind::InvalidArgument,
{
    if oflags.creat || oflags.excl || oflags.tmpfile {
        return Err(Error::invalid_argument("flags", "invalid flags specified"));
    }
    Ok(())
}

/// The bytes of a link target that are `:`, `[` or `]`, in order.
pub open spec fn magic_marks(t: Seq<u8>) -> Seq<u8>
    decreases t.len(),
{
    if t.len() == 0 {
        Seq::empty()
    } else {
        let r = magic_marks(t.drop_last());
        if t.last() == 58 || t.last() == 91 || t.last() == 93 {
            r.push(t.last())
        } else {
            r
        }
    }
}

/// Whether a symlink target may be a magic-link: absolute (as all procfs
/// magic-links read), or shaped like an anonymous inode, `name:[id]`.
pub open spec fn is_possible_magic_link(t: Seq<u8>) -> bool {
    is_absolute(t) || magic_marks(t) == seq![58u8, 91u8, 93u8]
}

/// Refuse (with `ELOOP`, as `RESOLVE_NO_MAGICLINKS` does) a symlink target
/// that may be a magic-link. No regular procfs symlink has that shape.
pub fn check_possible_magic_link(link_target: &[u8]) -> (r: Result<(), Error>)
    ensures
        r is Ok <==> !is_possible_magic_link(link_target@),
        r matches Err(e) ==> e.spec_kind() == ErrorKind::OsError(Some(ELOOP)),
{
    if path_is_absolute(link_target) {
        return Err(
            Error::os("emulated RESOLVE_NO_MAGICLINKS", ELOOP).wrap("step into absolute symlink"),
        );
    }
    let mut marks: Vec<u8> = Vec::new();
    let mut i: usize = 0;
    while i < link_target.len()
        invariant
            i <= link_target@.len(),
            marks@ == magic_marks(link_target@.take(i as int)),
        decreases link_target@.len() - i,
    {
        let b = link_target[i];
        assert(link_target@.take(i + 1).drop_last() =~= link_target@.take(i as int));
        if b == 58 || b == 91 || b == 93 {
            marks.push(b);
        }
        i = i + 1;
    }
    assert(link_target@.take(i as int) =~= link_target@);
    if marks.len() == 3 && marks[0] == 58 && marks[1] == 91 && marks[2] == 93 {
        assert(marks@ =~= seq![58u8, 91u8, 93u8]);
        return Err(
            Error::os("emulated RESOLVE_NO_MAGICLINKS", ELOOP).wrap("step into likely magiclink"),
        );
    }
    assert(marks@ != seq![58u8, 91u8, 93u8]);
    Ok(())
}

/// The walk of the restricted procfs resolver.
///
/// The caller holds the current directory. It asks for the next component,
/// opens it with `O_PATH|O_NOFOLLOW` (checking the mount id), tells the walk
/// whether it is a symlink, and reads the link when asked to.
pub struct ProcfsWalk {
    remaining: Vec<Vec<u8>>,
    symlink_traversals: usize,
    oflags: OpenFlags,
    rflags: ResolverFlags,
}

impl ProcfsWalk {
    /// The components still to walk, first one first.
    pub closed spec fn remaining(&self) -> Seq<Seq<u8>> {
        views(self.remaining@)
    }

    /// How many symlinks were followed so far.
    pub closed spec fn traversals(&self) -> nat {
        self.symlink_traversals as nat
    }

    pub closed spec fn oflags(&self) -> OpenFlags {
        self.oflags
    }

    pub closed spec fn rflags(&self) -> ResolverFlags {
        self.rflags
    }

    pub closed spec fn wf(&self) -> bool {
        self.symlink_traversals < MAX_SYMLINK_TRAVERSALS
    }

    /// Start a walk of `path`, which must be relative (`EXDEV` otherwise, as
    /// `RESOLVE_BENEATH` answers).
    pub fn new(path: &[u8], oflags: OpenFlags, rflags: ResolverFlags) -> (r: Result<ProcfsWalk, Error>)
        ensures
            r is Ok <==> !is_absolute(path@),
            r matches Ok(w) ==> w.wf() && w.remaining() == split_slash(path@) && w.traversals() == 0
                && w.oflags() == oflags && w.rflags() == rflags,
            r matches Err(e) ==> e.spec_kind() == ErrorKind::OsError(Some(EXDEV)),
    {
        if path_is_absolute(path) {
            return Err(
                Error::os("emulated RESOLVE_BENEATH", EXDEV).wrap(
                    "requested subpath is absolute but this is forbidden by RESOLVE_BENEATH",
                ),
            );
        }
        Ok(ProcfsWalk { remaining: raw_components(path), symlink_traversals: 0, oflags, rflags })
    }

    /// Take the next component to open: `None` when the walk is done (the
    /// current directory is the result). An empty component stands for `.`,
    /// so that a trailing slash on a non-directory fails as it should; `..`
    /// is refused with `EXDEV`.
    pub fn next_component(&mut self) -> (r: Result<Option<Vec<u8>>, Error>)
        requires
            old(self).wf(),
        ensures
            final(self).wf(),
            final(self).traversals() == old(self).traversals(),
            final(self).oflags() == old(self).oflags(),
            final(self).rflags() == old(self).rflags(),
            old(self).remaining().len() == 0 ==> (r matches Ok(None) && final(self).remaining()
                == old(self).remaining()),
            old(self).remaining().len() > 0 ==> final(self).remaining() == old(
                self,
            ).remaining().drop_first(),
            old(self).remaining().len() > 0 ==> ({
                let part = old(self).remaining()[0];
                if part == seq![DOT, DOT] {
                    r matches Err(e) && e.spec_kind() == ErrorKind::OsError(Some(EXDEV))
                } else if part.len() == 0 {
                    r matches Ok(Some(p)) && p@ == seq![DOT]
                } else {
                    r matches Ok(Some(p)) && p@ == part
                }
            }),
    {
        if self.remaining.len() == 0 {
            return Ok(None);
        }
        let part = self.remaining.remove(0);
        proof {
            assert(views(self.remaining@) =~= views(old(self).remaining@).drop_first());
        }
        if part.len() == 0 {
            return Ok(Some(vec![DOT]));
        }
        if part.len() == 2 && part[0] == DOT && part[1] == DOT {
            assert(part@ =~= seq![DOT, DOT]);
            return Err(
                Error::os("step into '..'", EXDEV).wrap(
                    "cannot walk into '..' with restricted procfs resolver",
                ),
            );
        }
        Ok(Some(part))
    }

    /// Whether the component just opened is the last one and must be opened
    /// again with the caller's flags (plus `O_NOFOLLOW`). Plain `O_PATH`
    /// needs no second open: the walk goes on as for any component.
    pub fn wants_final_reopen(&self) -> (r: bool)
        ensures
            r == (self.remaining().len() == 0 && !(self.oflags().path && !self.oflags().nofollow
                && !self.oflags().directory)),
    {
        self.remaining.len() == 0 && !(self.oflags.path && !self.oflags.nofollow
            && !self.oflags.directory)
    }

    /// The second open of the last component failed with `errno`. Only a
    /// symlink opened with `O_DIRECTORY` and without `O_NOFOLLOW` goes on
    /// (`Ok`): the user wants it followed, and `ENOTDIR` came only from the
    /// forced `O_NOFOLLOW`. Anything else is the lookup's error.
    pub fn final_reopen_failed(&self, errno: Option<i32>, is_symlink: bool) -> (r: Result<(), Error>)
        ensures
            r is Ok <==> (!self.oflags().nofollow && self.oflags().directory && errno == Some(ENOTDIR)
                && is_symlink),
            r matches Err(e) ==> e.spec_kind() == ErrorKind::OsError(errno),
    {
        if self.oflags.nofollow || !self.oflags.directory || errno != Some(ENOTDIR) || !is_symlink {
            return Err(
                Error::new(
                    crate::error::ErrorImpl::OsError {
                        operation: "open last component of resolution".to_owned(),
                        errno,
                    },
                ),
            );
        }
        Ok(())
    }

    /// The component just opened is (or is not) a symlink. `Ok(false)`: step
    /// into it and go on. `Ok(true)`: read the link and hand its target to
    /// [`ProcfsWalk::follow_link`]. Symlinks are refused with `ELOOP` when
    /// the flags forbid them or when the traversal limit is reached.
    pub fn after_open(&mut self, is_symlink: bool) -> (r: Result<bool, Error>)
        requires
            old(self).wf(),
        ensures
            final(self).remaining() == old(self).remaining(),
            final(self).oflags() == old(self).oflags(),
            final(self).rflags() == old(self).rflags(),
            !is_symlink ==> r == Ok::<bool, Error>(false) && final(self).traversals() == old(
                self,
            ).traversals() && final(self).wf(),
            is_symlink && old(self).rflags().no_symlinks ==> (r matches Err(e) && e.spec_kind()
                == ErrorKind::OsError(Some(ELOOP))),
            is_symlink && !old(self).rflags().no_symlinks && old(self).traversals() + 1
                >= MAX_SYMLINK_TRAVERSALS ==> (r matches Err(e) && e.spec_kind()
                == ErrorKind::OsError(Some(ELOOP))),
            is_symlink && !old(self).rflags().no_symlinks && old(self).traversals() + 1
                < MAX_SYMLINK_TRAVERSALS ==> r == Ok::<bool, Error>(true) && final(self).traversals()
                == old(self).traversals() + 1 && final(self).wf(),
    {
        if !is_symlink {
            return Ok(false);
        }
        if self.rflags.no_symlinks {
            return Err(
                Error::os("emulated symlink resolution", ELOOP).wrap(
                    "component is a symlink but symlink resolution is disabled",
                ),
            );
        }
        self.symlink_traversals = self.symlink_traversals + 1;
        if self.symlink_traversals >= MAX_SYMLINK_TRAVERSALS {
            return Err(Error::os("emulated symlink resolution", ELOOP).wrap("exceeded symlink limit"));
        }
        Ok(true)
    }

    /// Continue the walk through a symlink's target: refuse possible
    /// magic-links, else put the target's components in front of the rest.
    pub fn follow_link(&mut self, link_target: &[u8]) -> (r: Result<(), Error>)
        requires
            old(self).wf(),
        ensures
            final(self).wf(),
            final(self).traversals() == old(self).traversals(),
            final(self).oflags() == old(self).oflags(),
            final(self).rflags() == old(self).rflags(),
            r is Ok <==> !is_possible_magic_link(link_target@),
            r is Ok ==> final(self).remaining() == split_slash(link_target@) + old(self).remaining(),
            r matches Err(e) ==> e.spec_kind() == ErrorKind::OsError(Some(ELOOP)),
    {
        match check_possible_magic_link(link_target) {
            Err(e) => {
                return Err(
                    e.wrap("cannot walk into potential magiclinks with restricted procfs resolver"),
                );
            },
            Ok(()) => {},
        }
        let mut front = raw_components(link_target);
        let ghost f = front@;
        front.append(&mut self.remaining);
        self.remaining = front;
        proof {
            assert(views(self.remaining@) =~= views(f) + views(old(self).remaining@));
        }
        Ok(())
    }
}


/// Which backend resolves inside procfs.
#[derive(PartialEq, Eq, Structural, Debug, Clone, Copy)]
pub enum ProcfsResolver {
    /// One `openat2` call with `RESOLVE_BENEATH | RESOLVE_NO_MAGICLINKS |
    /// RESOLVE_NO_XDEV`.
    Openat2,
    /// The step-by-step [`ProcfsWalk`].
    RestrictedOpath,
}

impl ProcfsResolver {
    /// The backend to use: `openat2` unless an earlier probe saw it fail.
    pub fn select(saw_openat2_failure: bool) -> (r: ProcfsResolver)
        ensures
            r == (if saw_openat2_failure {
                ProcfsResolver::RestrictedOpath
            } else {
                ProcfsResolver::Openat2
            }),
    {
        if saw_openat2_failure {
            ProcfsResolver::RestrictedOpath
        } else {
            ProcfsResolver::Openat2
        }
    }
}

} // verus!
