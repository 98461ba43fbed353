//! The symlink stack of a partial lookup: where the walk stood when it met
//! each symlink it is still inside, so that a lookup that fails half-way
//! through a symlink's target reports the place of the symlink itself, as
//! the kernel does.
use crate::error::{Error, ErrorImpl, ErrorKind};
use crate::path::{raw_components, split_slash, views, DOT};
use vstd::prelude::*;

verus! {

/// A component as the walk takes it: an empty one is walked as `.`.
pub open spec fn walked_form(c: Seq<u8>) -> Seq<u8> {
    if c.len() == 0 {
        seq![DOT]
    } else {
        c
    }
}

/// The components of a link target as the walk will take them.
pub open spec fn link_parts(target: Seq<u8>) -> Seq<Seq<u8>> {
    split_slash(target).map_values(|c: Seq<u8>| walked_form(c))
}

/// One symlink being walked: the directory it was met in, the path that
/// remained there, and the components of its target not yet walked.
pub struct SymlinkFrame<D> {
    pub anchor: D,
    pub remaining: Vec<u8>,
    pub unwalked: Vec<Vec<u8>>,
}

pub open spec fn frame_view<D>(f: SymlinkFrame<D>) -> (D, Seq<u8>, Seq<Seq<u8>>) {
    (f.anchor, f.remaining@, views(f.unwalked@))
}

/// The stack after walking `part` (`None`: the stack does not match).
pub open spec fn spec_pop_part<D>(s: Seq<(D, Seq<u8>, Seq<Seq<u8>>)>, part: Seq<u8>) -> Option<
    Seq<(D, Seq<u8>, Seq<Seq<u8>>)>,
> {
    if s.len() == 0 {
        Some(s)
    } else {
        let top = s.last();
        if top.2.len() == 0 || top.2[0] != part {
            None
        } else if top.2.len() == 1 {
            Some(s.drop_last())
        } else {
            Some(s.drop_last().push((top.0, top.1, top.2.drop_first())))
        }
    }
}

/// A stack of the symlinks a walk is inside, outermost first.
pub struct SymlinkStack<D> {
    frames: Vec<SymlinkFrame<D>>,
}

impl<D> SymlinkStack<D> {
    pub closed spec fn view(&self) -> Seq<(D, Seq<u8>, Seq<Seq<u8>>)> {
        self.frames@.map_values(|f: SymlinkFrame<D>| frame_view(f))
    }

    pub closed spec fn wf(&self) -> bool {
        forall|i: int| 0 <= i < self.frames@.len() ==> self.frames@[i].unwalked@.len() > 0
    }

    pub fn new() -> (r: Self)
        ensures
            r.wf(),
            r.view() == Seq::<(D, Seq<u8>, Seq<Seq<u8>>)>::empty(),
    {
        let r = SymlinkStack { frames: Vec::new() };
        assert(r.view() =~= Seq::<(D, Seq<u8>, Seq<Seq<u8>>)>::empty());
        r
    }

    pub fn is_empty(&self) -> (r: bool)
        ensures
            r == (self.view().len() == 0),
    {
        self.frames.len() == 0
    }

    /// A component that is not a symlink was walked: it must be the next
    /// unwalked component of the innermost symlink, which is done with once
    /// nothing of it is left. An empty stack has nothing to match.
    pub fn pop_part(&mut self, part: &[u8]) -> (r: Result<(), Error>)
        requires
            old(self).wf(),
        ensures
            final(self).wf(),
            r is Ok <==> spec_pop_part(old(self).view(), part@) is Some,
            r is Ok ==> final(self).view() == spec_pop_part(old(self).view(), part@)->Some_0,
            r matches Err(e) ==> e.spec_kind() == ErrorKind::InternalError,
    {
        let ghost old_view = self.view();
        if self.frames.len() == 0 {
            return Ok(());
        }
        let ghost n = self.frames@.len();
        let top_matches = {
            let top = &self.frames[self.frames.len() - 1];
            top.unwalked.len() > 0 && same(&top.unwalked[0], part)
        };
        if !top_matches {
            return Err(
                Error::new(
                    ErrorImpl::BadSymlinkStack {
                        description: "walked component does not match the symlink stack".to_owned(),
                    },
                ),
            );
        }
        let top = self.frames.pop().unwrap();
        proof {
            assert(self.frames@ =~= old(self).frames@.drop_last());
            assert(self.view() =~= old_view.drop_last());
        }
        let SymlinkFrame { anchor, remaining, mut unwalked } = top;
        let ghost uw = views(unwalked@);
        unwalked.remove(0);
        proof {
            assert(views(unwalked@) =~= uw.drop_first());
        }
        if unwalked.len() > 0 {
            let f = SymlinkFrame { anchor, remaining, unwalked };
            self.frames.push(f);
            proof {
                assert(self.view() =~= old_view.drop_last().push(frame_view(f)));
            }
        }
        Ok(())
    }

    /// A symlink named `link_part` is followed from `anchor`, where
    /// `remaining` was left to walk: it counts as walked in the symlink it
    /// belongs to, and its target's components become the innermost frame.
    pub fn swap_link(&mut self, link_part: &[u8], anchor: D, remaining: Vec<u8>, link_target: &[u8]) -> (r:
        Result<(), Error>)
        requires
            old(self).wf(),
        ensures
            final(self).wf(),
            r is Ok <==> spec_pop_part(old(self).view(), link_part@) is Some,
            r is Ok ==> final(self).view() == spec_pop_part(old(self).view(), link_part@)->Some_0.push(
                (anchor, remaining@, link_parts(link_target@)),
            ),
            r matches Err(e) ==> e.spec_kind() == ErrorKind::InternalError,
    {
        self.pop_part(link_part)?;
        let raw = raw_components(link_target);
        let mut unwalked: Vec<Vec<u8>> = Vec::new();
        let mut i: usize = 0;
        while i < raw.len()
            invariant
                i <= raw@.len(),
                views(raw@) == split_slash(link_target@),
                views(unwalked@) == split_slash(link_target@).take(i as int).map_values(
                    |c: Seq<u8>| walked_form(c),
                ),
            decreases raw@.len() - i,
        {
            let c = if raw[i].len() == 0 {
                vec![DOT]
            } else {
                raw[i].clone()
            };
            proof {
                assert(c@ == walked_form(raw@[i as int]@)) by {
                    if raw@[i as int]@.len() == 0 {
                        assert(c@ =~= seq![DOT]);
                    }
                }
                assert(split_slash(link_target@)[i as int] == raw@[i as int]@);
            }
            let ghost before = views(unwalked@);
            unwalked.push(c);
            proof {
                assert(views(unwalked@) =~= before.push(c@));
                assert(split_slash(link_target@).take(i + 1) =~= split_slash(link_target@).take(
                    i as int,
                ).push(raw@[i as int]@));
                assert(views(unwalked@) =~= split_slash(link_target@).take(i + 1).map_values(
                    |c: Seq<u8>| walked_form(c),
                ));
            }
            i = i + 1;
        }
        proof {
            crate::path::lemma_split_slash_len(link_target@);
            assert(split_slash(link_target@).take(i as int) =~= split_slash(link_target@));
        }
        let ghost mid = self.view();
        let f = SymlinkFrame { anchor, remaining, unwalked };
        self.frames.push(f);
        proof {
            assert(self.view() =~= mid.push(frame_view(f)));
        }
        Ok(())
    }

    /// Take the outermost symlink: where it was met and what remained to
    /// walk there; `None` when the walk is inside no symlink.
    pub fn pop_top_symlink(&mut self) -> (r: Option<(D, Vec<u8>)>)
        requires
            old(self).wf(),
        ensures
            final(self).wf(),
            old(self).view().len() == 0 ==> r is None && final(self).view() == old(self).view(),
            old(self).view().len() > 0 ==> (r matches Some(p) && p.0 == old(self).view()[0].0 && p.1@
                == old(self).view()[0].1 && final(self).view() == old(self).view().drop_first()),
    {
        if self.frames.len() == 0 {
            return None;
        }
        let f = self.frames.remove(0);
        proof {
            assert(self.view() =~= old(self).view().drop_first());
        }
        Some((f.anchor, f.remaining))
    }
}

fn same(a: &Vec<u8>, b: &[u8]) -> (r: bool)
    ensures
        r == (a@ == b@),
{
    if a.len() != b.len() {
        return false;
    }
    let mut i: usize = 0;
    while i < a.len()
        invariant
            a@.len() == b@.len(),
            i <= a@.len(),
            forall|j: int| 0 <= j < i ==> a@[j] == b@[j],
        decreases a@.len() - i,
    {
        if a[i] != b[i] {
            return false;
        }
        i = i + 1;
    }
    assert(a@ =~= b@);
    true
}

} // verus!
