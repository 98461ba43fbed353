//! Decisions of the compound operations on a root.
use crate::error::{Error, ErrorKind};
use crate::opath::{is_dotdot, normal_parts};
use crate::path::{raw_components, split_slash, views, DOT};
use vstd::prelude::*;

verus! {

/// `EEXIST` on Linux.
pub const EEXIST: i32 = 17;

/// Whether some component is `..`.
pub open spec fn has_dotdot(parts: Seq<Seq<u8>>) -> bool {
    exists|i: int| 0 <= i < parts.len() && is_dotdot(#[trigger] parts[i])
}

/// The directories `mkdir_all` creates below the deepest existing ancestor,
/// given the path that remained unresolved there: its components, empty ones
/// and `.` left out. A `..` among them is refused, since what it names does
/// not exist yet.
pub fn mkdir_all_parts(remaining: &[u8]) -> (r: Result<Vec<Vec<u8>>, Error>)
    ensures
        r is Ok <==> !has_dotdot(normal_parts(split_slash(remaining@))),
        r matches Ok(v) ==> views(v@) == normal_parts(split_slash(remaining@)),
        r matches Err(e) ==> e.spec_kind() == ErrorKind::InvalidArgument,
{
    let parts = crate::opath::normalise_parts(raw_components(remaining).as_slice());
    let mut i: usize = 0;
    while i < parts.len()
        invariant
            i <= parts@.len(),
            views(parts@) == normal_parts(split_slash(remaining@)),
            forall|j: int| 0 <= j < i ==> !is_dotdot(#[trigger] views(parts@)[j]),
        decreases parts@.len() - i,
    {
        let p = &parts[i];
        if p.len() == 2 && p[0] == DOT && p[1] == DOT {
            assert(views(parts@)[i as int] =~= seq![DOT, DOT]);
            assert(has_dotdot(views(parts@)));
            return Err(
                Error::invalid_argument("path", "mkdir_all path has '..' below a missing directory"),
            );
        }
        proof {
            if p@.len() == 2 {
                assert(views(parts@)[i as int] != seq![DOT, DOT]);
            }
        }
        i = i + 1;
    }
    Ok(parts)
}

/// Whether `mkdir_all` goes on after `mkdirat` of one component: when it made
/// the directory, or when something already stood there (someone made it
/// first; opening it as a directory then tells whether it is one).
pub fn mkdir_step_ok(mkdir_errno: Option<i32>, succeeded: bool) -> (r: bool)
    ensures
        r == (succeeded || mkdir_errno == Some(EEXIST)),
{
    succeeded || mkdir_errno == Some(EEXIST)
}

} // verus!
