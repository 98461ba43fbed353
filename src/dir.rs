//! The decisions of recursive deletion. The caller unlinks, opens and scans
//! directories; these functions say which errors count and which do not.
use crate::error::{kind_errno, Error, ErrorImpl, ErrorKind, ENOENT, ENOTDIR};
use crate::opath::{is_dot, is_dotdot};
use crate::path::{contains_slash, slash_free, DOT};
use vstd::prelude::*;

verus! {

/// Whether an outcome counts as done: success, or an error whose errno is
/// `ENOENT` (someone else removed the inode first).
pub open spec fn done_or_gone(r: Result<(), Error>) -> bool {
    match r {
        Ok(()) => true,
        Err(e) => kind_errno(e.spec_kind()) == Some(ENOENT),
    }
}

/// Treat `ENOENT` from a removal as success.
pub fn ignore_enoent(r: Result<(), Error>) -> (out: Result<(), Error>)
    ensures
        out is Ok <==> done_or_gone(r),
        out matches Err(e) ==> r matches Err(e0) && e.spec_kind() == e0.spec_kind(),
{
    match r {
        Ok(()) => Ok(()),
        Err(e) => {
            if e.kind().errno() == Some(ENOENT) {
                Ok(())
            } else {
                Err(e)
            }
        },
    }
}

/// The errno reported when both `unlinkat` and `unlinkat(AT_REMOVEDIR)`
/// failed on an inode: the rmdir error, unless it only says the inode is no
/// directory, in which case the unlink error says more.
pub open spec fn spec_remove_errno(unlink_errno: Option<i32>, rmdir_errno: Option<i32>) -> Option<i32> {
    if rmdir_errno == Some(ENOTDIR) {
        unlink_errno
    } else {
        rmdir_errno
    }
}

/// The error of a failed removal of one inode (see [`spec_remove_errno`]).
pub fn remove_inode_error(unlink_errno: Option<i32>, rmdir_errno: Option<i32>) -> (e: Error)
    ensures
        e.spec_kind() == ErrorKind::OsError(spec_remove_errno(unlink_errno, rmdir_errno)),
{
    let errno = if rmdir_errno == Some(ENOTDIR) {
        unlink_errno
    } else {
        rmdir_errno
    };
    Error::new(ErrorImpl::OsError { operation: "remove inode".to_owned(), errno })
}

/// Recursive deletion works on one name at a time: a name holding a slash
/// is a safety violation.
pub fn check_remove_all_name(name: &[u8]) -> (r: Result<(), Error>)
    ensures
        r is Ok <==> slash_free(name@),
        r matches Err(e) ==> e.spec_kind() == ErrorKind::SafetyViolation,
{
    if contains_slash(name) {
        return Err(Error::safety_violation("remove_all reached a component containing '/'"));
    }
    Ok(())
}

/// Whether a directory entry is one to delete: every entry but `.` and `..`.
pub fn is_deletable_entry(name: &[u8]) -> (r: bool)
    ensures
        r == !(is_dot(name@) || is_dotdot(name@)),
{
    if name.len() == 1 && name[0] == DOT {
        assert(name@ =~= seq![DOT]);
        return false;
    }
    if name.len() == 2 && name[0] == DOT && name[1] == DOT {
        assert(name@ =~= seq![DOT, DOT]);
        return false;
    }
    proof {
        if name@.len() == 1 {
            assert(name@ != seq![DOT]);
        }
        if name@.len() == 2 {
            assert(name@ != seq![DOT, DOT]);
        }
    }
    true
}

} // verus!
