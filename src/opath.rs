//! The userspace emulation of the confined resolver.
//!
//! The walk keeps the lexical path it expects to be at (`expected`), which
//! `..` can only shorten and never take above the root, and the components
//! still to walk. The caller opens each component with
//! `O_PATH|O_NOFOLLOW` and, after every `..` and once at the end, checks
//! through procfs that the descriptor it holds is really at the expected
//! path ([`check_current`]).
use crate::error::{Error, ErrorKind, ELOOP};
use crate::flags::ResolverFlags;
use crate::path::{lemma_split_slash_free, slash_free, is_absolute, join_components, join_slash, path_is_absolute, raw_components, split_slash, views, DOT, SLASH};
use crate::procfs_resolver::MAX_SYMLINK_TRAVERSALS;
use vstd::prelude::*;

verus! {

pub open spec fn is_dot(p: Seq<u8>) -> bool {
    p == seq![DOT]
}

pub open spec fn is_dotdot(p: Seq<u8>) -> bool {
    p == seq![DOT, DOT]
}

/// Where a walk stands: what is left to walk, and the path from the root it
/// expects to be at, as components.
pub struct WalkState {
    pub remaining: Seq<Seq<u8>>,
    pub expected: Seq<Seq<u8>>,
}

/// What taking a component asks of the caller.
pub enum StepKind {
    /// Nothing is left to walk.
    Done,
    /// `..` at the root: go back to the root handle, open nothing.
    ResetToRoot,
    /// Open this name in the current directory (`..` is marked, since the
    /// result must be checked against the expected path).
    Open { part: Seq<u8>, dotdot: bool },
}

/// Taking the next component of a walk.
pub open spec fn spec_next(s: WalkState) -> (WalkState, StepKind) {
    if s.remaining.len() == 0 {
        (s, StepKind::Done)
    } else {
        let part = s.remaining[0];
        let rest = s.remaining.drop_first();
        if part.len() == 0 || is_dot(part) {
            (WalkState { remaining: rest, expected: s.expected }, StepKind::Open { part: seq![DOT], dotdot: false })
        } else if is_dotdot(part) {
            if s.expected.len() == 0 {
                (WalkState { remaining: rest, expected: s.expected }, StepKind::ResetToRoot)
            } else {
                (
                    WalkState { remaining: rest, expected: s.expected.drop_last() },
                    StepKind::Open { part: part, dotdot: true },
                )
            }
        } else {
            (
                WalkState { remaining: rest, expected: s.expected.push(part) },
                StepKind::Open { part: part, dotdot: false },
            )
        }
    }
}

/// The state after `n` steps that open nothing (each one `..` at the root).
pub open spec fn run_resets(s: WalkState, n: nat) -> WalkState
    decreases n,
{
    if n == 0 {
        s
    } else {
        run_resets(spec_next(s).0, (n - 1) as nat)
    }
}

/// `n` components `..`.
pub open spec fn dotdots(n: nat) -> Seq<Seq<u8>> {
    Seq::new(n, |i: int| seq![DOT, DOT])
}

/// `n` copies of `../`.
pub open spec fn dotdot_slashes(n: nat) -> Seq<u8>
    decreases n,
{
    if n == 0 {
        Seq::empty()
    } else {
        dotdot_slashes((n - 1) as nat) + seq![DOT, DOT, SLASH]
    }
}

/// The start of a walk of `path`.
pub open spec fn initial_state(path: Seq<u8>) -> WalkState {
    WalkState { remaining: split_slash(path), expected: Seq::empty() }
}

/// Splitting at a slash splits the components.
pub proof fn lemma_split_slash_concat(a: Seq<u8>, b: Seq<u8>)
    ensures
        split_slash(a + seq![SLASH] + b) == split_slash(a) + split_slash(b),
    decreases b.len(),
{
    if b.len() == 0 {
        assert(a + seq![SLASH] + b =~= a.push(SLASH));
        assert((a + seq![SLASH] + b).drop_last() =~= a);
        assert(split_slash(a) + split_slash(b) =~= split_slash(a).push(Seq::empty()));
    } else {
        let ab = a + seq![SLASH] + b;
        assert(ab.drop_last() =~= a + seq![SLASH] + b.drop_last());
        lemma_split_slash_concat(a, b.drop_last());
        crate::path::lemma_split_slash_len(b.drop_last());
        crate::path::lemma_split_slash_len(a);
        let r = split_slash(ab.drop_last());
        let sa = split_slash(a);
        let sb = split_slash(b.drop_last());
        assert(ab.last() == b.last());
        if b.last() == SLASH {
            assert(split_slash(ab) =~= sa + sb.push(Seq::empty()));
        } else {
            assert(r =~= sa + sb);
            assert(split_slash(ab) =~= sa + sb.update(sb.len() - 1, sb.last().push(b.last())));
        }
    }
}

proof fn lemma_split_dotdot()
    ensures
        split_slash(seq![DOT, DOT]) == seq![seq![DOT, DOT]],
{
    let e = Seq::<u8>::empty();
    assert(split_slash(e) == seq![e]);
    assert(seq![DOT].drop_last() =~= e);
    assert(split_slash(seq![DOT]) =~= seq![seq![DOT]]) by {
        assert(seq![e].update(0, e.push(DOT)) =~= seq![seq![DOT]]);
        assert(e.push(DOT) =~= seq![DOT]);
    }
    assert(seq![DOT, DOT].drop_last() =~= seq![DOT]);
    assert(seq![DOT].push(DOT) =~= seq![DOT, DOT]);
    assert(seq![seq![DOT]].update(0, seq![DOT, DOT]) =~= seq![seq![DOT, DOT]]);
}

/// `../` repeated `n` times (`n >= 1`) then `q` splits into `n` times `..`
/// then the components of `q`.
pub proof fn lemma_split_dotdots(n: nat, q: Seq<u8>)
    requires
        n >= 1,
    ensures
        split_slash(dotdot_slashes(n) + q) == dotdots(n) + split_slash(q),
    decreases n,
{
    if n == 1 {
        assert(dotdot_slashes(0) =~= Seq::<u8>::empty());
        assert(dotdot_slashes(1) + q =~= seq![DOT, DOT] + seq![SLASH] + q);
        lemma_split_slash_concat(seq![DOT, DOT], q);
        lemma_split_dotdot();
        assert(dotdots(1) =~= seq![seq![DOT, DOT]]);
    } else {
        let m = (n - 1) as nat;
        assert(dotdot_slashes(n) + q =~= dotdot_slashes(m) + (seq![DOT, DOT, SLASH] + q));
        lemma_split_dotdots(m, seq![DOT, DOT, SLASH] + q);
        assert(seq![DOT, DOT, SLASH] + q =~= seq![DOT, DOT] + seq![SLASH] + q);
        lemma_split_slash_concat(seq![DOT, DOT], q);
        lemma_split_dotdot();
        assert(dotdots(m) + (seq![seq![DOT, DOT]] + split_slash(q))
            =~= dotdots(n) + split_slash(q));
    }
}

proof fn lemma_resets(rest: Seq<Seq<u8>>, n: nat)
    ensures
        run_resets(
            WalkState { remaining: dotdots(n) + rest, expected: Seq::empty() },
            n,
        ) == (WalkState { remaining: rest, expected: Seq::empty() }),
        forall|k: nat|
            k < n ==> (#[trigger] spec_next(
                run_resets(
                    WalkState {
                        remaining: dotdots(n) + rest,
                        expected: Seq::empty(),
                    },
                    k,
                ),
            ).1) is ResetToRoot,
    decreases n,
{
    let s = WalkState { remaining: dotdots(n) + rest, expected: Seq::empty() };
    if n > 0 {
        let m = (n - 1) as nat;
        let s1 = WalkState { remaining: dotdots(m) + rest, expected: Seq::empty() };
        assert(s.remaining[0] == seq![DOT, DOT]);
        assert(s.remaining.drop_first() =~= s1.remaining);
        assert(spec_next(s).0 == s1);
        lemma_resets(rest, m);
        assert forall|k: nat| k < n implies (#[trigger] spec_next(run_resets(s, k)).1) is ResetToRoot by {
            if k > 0 {
                assert(run_resets(s, k) == run_resets(s1, (k - 1) as nat));
            }
        }
    }
}

/// A trailing `/`, `//` or `/.` on a path adds components that the walk
/// takes as `.`, opened in whatever the path named: the kernel answers
/// `ENOTDIR` there when that is no directory.
pub proof fn lemma_trailing_slash_opens_dot(p: Seq<u8>, expected: Seq<Seq<u8>>)
    ensures
        split_slash(p.push(SLASH)) == split_slash(p).push(Seq::empty()),
        split_slash(p.push(SLASH).push(SLASH)) == split_slash(p).push(Seq::empty()).push(Seq::empty()),
        split_slash(p.push(SLASH).push(DOT)) == split_slash(p).push(seq![DOT]),
        spec_next(WalkState { remaining: seq![Seq::empty()], expected }).1 == (StepKind::Open {
            part: seq![DOT],
            dotdot: false,
        }),
        spec_next(WalkState { remaining: seq![seq![DOT]], expected }).1 == (StepKind::Open {
            part: seq![DOT],
            dotdot: false,
        }),
{
    assert(p.push(SLASH).drop_last() =~= p);
    assert(p.push(SLASH).push(SLASH).drop_last() =~= p.push(SLASH));
    assert(p.push(SLASH).push(DOT).drop_last() =~= p.push(SLASH));
    crate::path::lemma_split_slash_len(p);
    assert(split_slash(p.push(SLASH)) == split_slash(p).push(Seq::empty()));
    assert(split_slash(p.push(SLASH).push(SLASH)) == split_slash(p.push(SLASH)).push(Seq::empty()));
    let sp = split_slash(p).push(Seq::<u8>::empty());
    assert(sp.update(sp.len() - 1, sp.last().push(DOT)) =~= split_slash(p).push(seq![DOT])) by {
        assert(Seq::<u8>::empty().push(DOT) =~= seq![DOT]);
    }
}

/// `..` can never escape the root: a walk of `../` repeated `n` times and
/// then `q` takes `n` steps that only go back to the root, opening nothing,
/// and then stands exactly where a walk of `q` starts.
pub proof fn lemma_dotdot_cannot_escape(n: nat, q: Seq<u8>)
    ensures
        run_resets(initial_state(dotdot_slashes(n) + q), n) == initial_state(q),
        forall|k: nat|
            k < n ==> (#[trigger] spec_next(run_resets(initial_state(dotdot_slashes(n) + q), k)).1) is ResetToRoot,
{
    if n == 0 {
        assert(dotdot_slashes(0) + q =~= q);
    } else {
        lemma_split_dotdots(n, q);
        lemma_resets(split_slash(q), n);
    }
}


/// What the caller does next in a walk.
pub enum Step {
    /// Nothing is left: check the current handle against the expected path
    /// and return it.
    Done,
    /// `..` at the root: continue from the root handle.
    ResetToRoot,
    /// Open `part` in the current directory with `O_PATH|O_NOFOLLOW`. When
    /// that fails, the lookup stops at the current directory with
    /// `remaining` (the path still to walk, `part` included) left. After a
    /// `..` (`dotdot`), check the new handle against the expected path.
    Open { part: Vec<u8>, dotdot: bool, remaining: Vec<u8> },
}

/// What to do with the component just opened.
pub enum AfterOpen {
    /// Not a symlink: it becomes the current directory.
    Advance,
    /// The trailing symlink, not to be followed: it is the result.
    ReturnLink,
    /// A symlink to follow: read it and call [`ConfinedWalk::follow_link`].
    ReadLink,
    /// Stop at the current directory with this error (partial lookup).
    Stop(Error),
}

/// The walk of the emulated confined resolver.
pub struct ConfinedWalk {
    remaining: Vec<Vec<u8>>,
    expected: Vec<Vec<u8>>,
    symlink_traversals: usize,
    rflags: ResolverFlags,
    no_follow_trailing: bool,
}

impl ConfinedWalk {
    pub closed spec fn state(&self) -> WalkState {
        WalkState { remaining: views(self.remaining@), expected: views(self.expected@) }
    }

    pub closed spec fn traversals(&self) -> nat {
        self.symlink_traversals as nat
    }

    pub closed spec fn rflags(&self) -> ResolverFlags {
        self.rflags
    }

    pub closed spec fn no_follow_trailing(&self) -> bool {
        self.no_follow_trailing
    }

    pub closed spec fn wf(&self) -> bool {
        &&& self.symlink_traversals < MAX_SYMLINK_TRAVERSALS
        &&& all_normal(views(self.expected@))
        &&& forall|i: int| 0 <= i < self.remaining@.len() ==> slash_free(#[trigger] self.remaining@[i]@)
    }

    /// Start a walk of `path` from the root. With `no_follow_trailing`, a
    /// trailing symlink is the result rather than followed.
    pub fn new(path: &[u8], rflags: ResolverFlags, no_follow_trailing: bool) -> (r: ConfinedWalk)
        ensures
            r.wf(),
            r.state() == initial_state(path@),
            r.traversals() == 0,
            r.rflags() == rflags,
            r.no_follow_trailing() == no_follow_trailing,
    {
        let w = ConfinedWalk {
            remaining: raw_components(path),
            expected: Vec::new(),
            symlink_traversals: 0,
            rflags,
            no_follow_trailing,
        };
        assert(views(w.expected@) =~= Seq::<Seq<u8>>::empty());
        proof {
            lemma_split_slash_free(path@);
            assert forall|i: int| 0 <= i < w.remaining@.len() implies slash_free(#[trigger] w.remaining@[i]@) by {
                assert(w.remaining@[i]@ == views(w.remaining@)[i]);
            }
        }
        w
    }

    /// Take the next component, as [`spec_next`] says. The components come
    /// from splitting at slashes, so no name ever holds one.
    pub fn next_component(&mut self) -> (r: Step)
        requires
            old(self).wf(),
        ensures
            final(self).wf(),
            final(self).state() == spec_next(old(self).state()).0,
            final(self).traversals() == old(self).traversals(),
            final(self).rflags() == old(self).rflags(),
            final(self).no_follow_trailing() == old(self).no_follow_trailing(),
            match spec_next(old(self).state()).1 {
                StepKind::Done => r is Done,
                StepKind::ResetToRoot => r is ResetToRoot,
                StepKind::Open { part, dotdot } => r matches Step::Open { part: p, dotdot: d, remaining: rem }
                    && p@ == part && d == dotdot && rem@ == join_slash(old(self).state().remaining)
                    && slash_free(p@),
            },
    {
        if self.remaining.len() == 0 {
            return Step::Done;
        }
        proof {
            assert(slash_free(self.remaining@[0]@));
        }
        let remaining = join_components(self.remaining.as_slice());
        let part = self.remaining.remove(0);
        proof {
            assert(views(self.remaining@) =~= views(old(self).remaining@).drop_first());
        }
        if part.len() == 0 || (part.len() == 1 && part[0] == DOT) {
            proof {
                if part@.len() == 1 {
                    assert(part@ =~= seq![DOT]);
                }
            }
            let dot = vec![DOT];
            assert(dot@ =~= seq![DOT]);
            return Step::Open { part: dot, dotdot: false, remaining };
        }
        if part.len() == 2 && part[0] == DOT && part[1] == DOT {
            assert(part@ =~= seq![DOT, DOT]);
            if self.expected.len() == 0 {
                return Step::ResetToRoot;
            }
            self.expected.pop();
            proof {
                assert(views(self.expected@) =~= views(old(self).expected@).drop_last());
            }
            return Step::Open { part, dotdot: true, remaining };
        }
        proof {
            if part@.len() == 1 {
                assert(part@ != seq![DOT]);
            }
            if part@.len() == 2 {
                assert(part@ != seq![DOT, DOT]);
            }
        }
        self.expected.push(part.clone());
        let ghost pv = part@;
        proof {
            assert(views(self.expected@) =~= views(old(self).expected@).push(pv));
        }
        Step::Open { part, dotdot: false, remaining }
    }

    /// The component just opened is (or is not) a symlink; say what to do.
    pub fn after_open(&mut self, is_symlink: bool) -> (r: AfterOpen)
        requires
            old(self).wf(),
        ensures
            final(self).wf(),
            final(self).state() == old(self).state(),
            final(self).rflags() == old(self).rflags(),
            final(self).no_follow_trailing() == old(self).no_follow_trailing(),
            !is_symlink ==> (r is Advance && final(self).traversals() == old(self).traversals()),
            is_symlink && old(self).state().remaining.len() == 0 && old(self).no_follow_trailing()
                ==> r is ReturnLink,
            is_symlink && !(old(self).state().remaining.len() == 0 && old(self).no_follow_trailing())
                && old(self).rflags().no_symlinks ==> (r matches AfterOpen::Stop(e) && e.spec_kind()
                == ErrorKind::OsError(Some(ELOOP))),
            is_symlink && !(old(self).state().remaining.len() == 0 && old(self).no_follow_trailing())
                && !old(self).rflags().no_symlinks ==> (if old(self).traversals() + 1
                >= MAX_SYMLINK_TRAVERSALS {
                r matches AfterOpen::Stop(e) && e.spec_kind() == ErrorKind::OsError(Some(ELOOP))
            } else {
                r is ReadLink && final(self).traversals() == old(self).traversals() + 1
            }),
    {
        if !is_symlink {
            return AfterOpen::Advance;
        }
        if self.remaining.len() == 0 && self.no_follow_trailing {
            return AfterOpen::ReturnLink;
        }
        if self.rflags.no_symlinks {
            return AfterOpen::Stop(
                Error::os("emulated symlink resolution", ELOOP).wrap(
                    "component is a symlink but symlink resolution is disabled",
                ),
            );
        }
        if self.symlink_traversals + 1 >= MAX_SYMLINK_TRAVERSALS {
            return AfterOpen::Stop(Error::os("emulated symlink resolution", ELOOP));
        }
        self.symlink_traversals = self.symlink_traversals + 1;
        AfterOpen::ReadLink
    }

    /// Follow a symlink whose target was read. An absolute target on a
    /// filesystem with magic-links is refused with `ELOOP`. Otherwise the
    /// link's own name leaves the expected path, the target's components go
    /// in front of the rest, and an absolute target starts again from the
    /// root (`Ok(true)`: the caller goes back to the root handle).
    pub fn follow_link(&mut self, link_target: &[u8], on_magiclink_fs: bool) -> (r: Result<bool, Error>)
        requires
            old(self).wf(),
        ensures
            final(self).wf(),
            final(self).traversals() == old(self).traversals(),
            final(self).rflags() == old(self).rflags(),
            final(self).no_follow_trailing() == old(self).no_follow_trailing(),
            r is Err <==> (is_absolute(link_target@) && on_magiclink_fs),
            r matches Err(e) ==> e.spec_kind() == ErrorKind::OsError(Some(ELOOP)),
            r matches Ok(reset) ==> reset == is_absolute(link_target@) && final(self).state().remaining
                == split_slash(link_target@) + old(self).state().remaining && final(self).state().expected
                == (if reset {
                Seq::empty()
            } else if old(self).state().expected.len() > 0 {
                old(self).state().expected.drop_last()
            } else {
                old(self).state().expected
            }),
    {
        let absolute = path_is_absolute(link_target);
        if absolute && on_magiclink_fs {
            return Err(
                Error::os("emulated RESOLVE_NO_MAGICLINKS", ELOOP).wrap(
                    "walked into a potential magic-link",
                ),
            );
        }
        let ghost old_expected = views(self.expected@);
        if self.expected.len() > 0 {
            self.expected.pop();
            proof {
                assert(views(self.expected@) =~= old_expected.drop_last());
            }
        }
        let mut front = raw_components(link_target);
        let ghost f = front@;
        front.append(&mut self.remaining);
        self.remaining = front;
        proof {
            assert(views(self.remaining@) =~= views(f) + views(old(self).remaining@));
            lemma_split_slash_free(link_target@);
            assert forall|i: int| 0 <= i < self.remaining@.len() implies slash_free(
                #[trigger] self.remaining@[i]@,
            ) by {
                if i < f.len() {
                    assert(self.remaining@[i]@ == split_slash(link_target@)[i]);
                } else {
                    assert(self.remaining@[i] == old(self).remaining@[i - f.len()]);
                }
            }
        }
        if absolute {
            self.expected = Vec::new();
            assert(views(self.expected@) =~= Seq::<Seq<u8>>::empty());
        }
        Ok(absolute)
    }

    /// Check the handle the caller holds against the expected path (see
    /// [`check_current`]).
    pub fn check_expected(&self, current_path: &[u8], root_path: &[u8], new_root_path: &[u8]) -> (r:
        Result<(), Error>)
        requires
            self.wf(),
        ensures
            r is Ok ==> is_absolute(current_path@) == is_absolute(root_path@) && path_key(current_path@).1
                == normal_parts(split_slash(root_path@)) + self.state().expected && forall|i: int|
                0 <= i < self.state().expected.len() ==> !is_dotdot(#[trigger] self.state().expected[i]),
            r is Ok <==> (path_key(current_path@) == expected_key(root_path@, self.state().expected)
                && path_key(root_path@) == path_key(new_root_path@)),
            r matches Err(e) ==> e.spec_kind() == ErrorKind::SafetyViolation,
    {
        proof {
            lemma_normal_parts_of_names(views(self.expected@));
            assert forall|i: int| 0 <= i < self.state().expected.len() implies !is_dotdot(
                #[trigger] self.state().expected[i],
            ) by {
                assert(views(self.expected@)[i].len() > 0);
            }
        }
        check_current(current_path, root_path, self.expected.as_slice(), new_root_path)
    }
}

/// Whether every component is a plain name: not empty, `.` or `..`.
pub open spec fn all_normal(e: Seq<Seq<u8>>) -> bool {
    forall|i: int| 0 <= i < e.len() ==> #[trigger] e[i].len() > 0 && !is_dot(e[i]) && !is_dotdot(e[i])
}

/// Plain names are left as they are by [`normal_parts`].
pub proof fn lemma_normal_parts_of_names(e: Seq<Seq<u8>>)
    requires
        all_normal(e),
    ensures
        normal_parts(e) == e,
    decreases e.len(),
{
    if e.len() > 0 {
        assert(all_normal(e.drop_last())) by {
            assert forall|i: int| 0 <= i < e.drop_last().len() implies #[trigger] e.drop_last()[i].len() > 0
                && !is_dot(e.drop_last()[i]) && !is_dotdot(e.drop_last()[i]) by {
                assert(e.drop_last()[i] == e[i]);
            }
        }
        lemma_normal_parts_of_names(e.drop_last());
        assert(e[e.len() - 1].len() > 0);
        assert(e.last().len() > 0 && !is_dot(e.last()));
        assert(e.drop_last().push(e.last()) =~= e);
    }
}

/// The components of a path that a comparison of paths sees: empty ones
/// and `.` are left out.
pub open spec fn normal_parts(c: Seq<Seq<u8>>) -> Seq<Seq<u8>>
    decreases c.len(),
{
    if c.len() == 0 {
        Seq::empty()
    } else {
        let r = normal_parts(c.drop_last());
        if c.last().len() == 0 || is_dot(c.last()) {
            r
        } else {
            r.push(c.last())
        }
    }
}

/// What two paths must share to be the same path: whether they are
/// absolute, and their normal components.
pub open spec fn path_key(p: Seq<u8>) -> (bool, Seq<Seq<u8>>) {
    (is_absolute(p), normal_parts(split_slash(p)))
}

/// The key of the root's path joined with the expected components.
pub open spec fn expected_key(root_path: Seq<u8>, expected: Seq<Seq<u8>>) -> (bool, Seq<Seq<u8>>) {
    (is_absolute(root_path), normal_parts(split_slash(root_path)) + normal_parts(expected))
}

/// The components of a path that a comparison of paths sees.
pub fn normalise_parts(parts: &[Vec<u8>]) -> (r: Vec<Vec<u8>>)
    ensures
        views(r@) == normal_parts(views(parts@)),
{
    let mut out: Vec<Vec<u8>> = Vec::new();
    let mut i: usize = 0;
    while i < parts.len()
        invariant
            i <= parts@.len(),
            views(out@) == normal_parts(views(parts@.take(i as int))),
        decreases parts@.len() - i,
    {
        let p = &parts[i];
        proof {
            assert(views(parts@.take(i + 1)).drop_last() =~= views(parts@.take(i as int)));
            assert(views(parts@.take(i + 1)).last() == p@);
        }
        let skip = p.len() == 0 || (p.len() == 1 && p[0] == DOT);
        proof {
            if p@.len() == 1 && p@[0] == DOT {
                assert(p@ =~= seq![DOT]);
            }
        }
        if !skip {
            out.push(p.clone());
            proof {
                assert(views(out@) =~= normal_parts(views(parts@.take(i as int))).push(p@));
            }
        }
        i = i + 1;
    }
    assert(parts@.take(i as int) =~= parts@);
    out
}

fn same_bytes(a: &Vec<u8>, b: &Vec<u8>) -> (r: bool)
    ensures
        r == (a@ == b@),
{
    if a.len() != b.len() {
        return false;
    }
    let mut i: usize = 0;
    while i < a.len()
        invariant
            a@.len() == b@.len(),
            i <= a@.len(),
            forall|j: int| 0 <= j < i ==> a@[j] == b@[j],
        decreases a@.len() - i,
    {
        if a[i] != b[i] {
            return false;
        }
        i = i + 1;
    }
    assert(a@ =~= b@);
    true
}

fn same_parts(a: &Vec<Vec<u8>>, b: &Vec<Vec<u8>>) -> (r: bool)
    ensures
        r == (views(a@) == views(b@)),
{
    if a.len() != b.len() {
        assert(views(a@).len() != views(b@).len());
        return false;
    }
    let mut i: usize = 0;
    while i < a.len()
        invariant
            a@.len() == b@.len(),
            i <= a@.len(),
            forall|j: int| 0 <= j < i ==> a@[j]@ == b@[j]@,
        decreases a@.len() - i,
    {
        if !same_bytes(&a[i], &b[i]) {
            assert(views(a@)[i as int] != views(b@)[i as int]);
            return false;
        }
        i = i + 1;
    }
    assert(views(a@) =~= views(b@));
    true
}

/// The check that keeps the emulated resolver confined. `current_path` is
/// the kernel's path of the handle the walk holds, `root_path` that of the
/// root before the check and `new_root_path` after it. The handle must be at
/// the root's path joined with the expected components, and the root must
/// not have moved; otherwise the lookup is a safety violation.
pub fn check_current(current_path: &[u8], root_path: &[u8], expected: &[Vec<u8>], new_root_path: &[u8]) -> (r:
    Result<(), Error>)
    ensures
        r is Ok <==> (path_key(current_path@) == expected_key(root_path@, views(expected@))
            && path_key(root_path@) == path_key(new_root_path@)),
        r matches Err(e) ==> e.spec_kind() == ErrorKind::SafetyViolation,
{
    let cur = normalise_parts(raw_components(current_path).as_slice());
    let root = normalise_parts(raw_components(root_path).as_slice());
    let mut full = root.clone();
    let mut exp = normalise_parts(expected);
    let ghost rv = views(root@);
    proof {
        assert(views(full@) == rv) by {
            assert(views(full@) =~= views(root@));
        }
    }
    let ghost ev = views(exp@);
    let ghost fv = views(full@);
    full.append(&mut exp);
    proof {
        assert(views(full@) =~= fv + ev);
    }
    if path_is_absolute(current_path) != path_is_absolute(root_path) || !same_parts(&cur, &full) {
        return Err(Error::safety_violation("fd doesn't match expected path"));
    }
    let new_root = normalise_parts(raw_components(new_root_path).as_slice());
    if path_is_absolute(root_path) != path_is_absolute(new_root_path) || !same_parts(&root, &new_root) {
        return Err(Error::safety_violation("root moved during lookup"));
    }
    Ok(())
}

} // verus!
