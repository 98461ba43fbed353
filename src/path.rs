//! Byte-level path utilities that keep the kernel's lookup semantics: empty
//! components from `//`, `.` and `..` are all kept.
use vstd::prelude::*;

verus! {

pub const SLASH: u8 = 47;

pub const DOT: u8 = 46;

/// The views of a sequence of byte vectors.
pub open spec fn views(v: Seq<Vec<u8>>) -> Seq<Seq<u8>> {
    v.map_values(|x: Vec<u8>| x@)
}

/// The components of `p` between slashes, in order: an empty component where
/// two slashes meet, at a leading slash and at a trailing slash.
pub open spec fn split_slash(p: Seq<u8>) -> Seq<Seq<u8>>
    decreases p.len(),
{
    if p.len() == 0 {
        seq![Seq::empty()]
    } else {
        let r = split_slash(p.drop_last());
        if p.last() == SLASH {
            r.push(Seq::empty())
        } else {
            r.update(r.len() - 1, r.last().push(p.last()))
        }
    }
}

pub proof fn lemma_split_slash_len(p: Seq<u8>)
    ensures
        split_slash(p).len() >= 1,
        split_slash(p).len() <= p.len() + 1,
    decreases p.len(),
{
    if p.len() > 0 {
        lemma_split_slash_len(p.drop_last());
    }
}

/// Whether a component holds no slash.
pub open spec fn slash_free(c: Seq<u8>) -> bool {
    forall|k: int| 0 <= k < c.len() ==> c[k] != SLASH
}

/// No component of a split holds a slash.
pub proof fn lemma_split_slash_free(p: Seq<u8>)
    ensures
        forall|j: int| 0 <= j < split_slash(p).len() ==> slash_free(#[trigger] split_slash(p)[j]),
    decreases p.len(),
{
    if p.len() > 0 {
        lemma_split_slash_free(p.drop_last());
        lemma_split_slash_len(p.drop_last());
        let r = split_slash(p.drop_last());
        if p.last() != SLASH {
            assert forall|j: int| 0 <= j < split_slash(p).len() implies slash_free(
                #[trigger] split_slash(p)[j],
            ) by {
                if j == r.len() - 1 {
                    assert(slash_free(r[j]));
                    assert forall|k: int| 0 <= k < split_slash(p)[j].len() implies split_slash(p)[j][k]
                        != SLASH by {
                        if k < r[j].len() {
                            assert(split_slash(p)[j][k] == r[j][k]);
                        }
                    }
                } else {
                    assert(split_slash(p)[j] == r[j]);
                }
            }
        } else {
            assert forall|j: int| 0 <= j < split_slash(p).len() implies slash_free(
                #[trigger] split_slash(p)[j],
            ) by {
                if j < r.len() {
                    assert(split_slash(p)[j] == r[j]);
                }
            }
        }
    }
}

/// Whether a component holds a slash.
pub fn contains_slash(p: &[u8]) -> (r: bool)
    ensures
        r == !slash_free(p@),
{
    let mut i: usize = 0;
    while i < p.len()
        invariant
            i <= p@.len(),
            forall|j: int| 0 <= j < i ==> p@[j] != SLASH,
        decreases p@.len() - i,
    {
        if p[i] == SLASH {
            return true;
        }
        i = i + 1;
    }
    false
}

/// Whether `p` starts at the root.
pub open spec fn is_absolute(p: Seq<u8>) -> bool {
    p.len() > 0 && p[0] == SLASH
}

pub fn path_is_absolute(p: &[u8]) -> (r: bool)
    ensures
        r == is_absolute(p@),
{
    p.len() > 0 && p[0] == SLASH
}

/// Split `p` into its raw components: the pieces between slashes, keeping
/// the empty pieces that `//`, a leading `/` or a trailing `/` make.
pub fn raw_components(p: &[u8]) -> (r: Vec<Vec<u8>>)
    ensures
        views(r@) == split_slash(p@),
{
    let mut comps: Vec<Vec<u8>> = Vec::new();
    let mut cur: Vec<u8> = Vec::new();
    let mut i: usize = 0;
    assert(p@.take(0) =~= Seq::<u8>::empty());
    while i < p.len()
        invariant
            i <= p@.len(),
            views(comps@).push(cur@) == split_slash(p@.take(i as int)),
        decreases p@.len() - i,
    {
        let b = p[i];
        proof {
            assert(p@.take(i + 1).drop_last() =~= p@.take(i as int));
            lemma_split_slash_len(p@.take(i as int));
        }
        let ghost before = views(comps@).push(cur@);
        if b == SLASH {
            let done = cur;
            comps.push(done);
            cur = Vec::new();
            assert(views(comps@).push(cur@) =~= before.push(Seq::empty()));
        } else {
            cur.push(b);
            assert(views(comps@).push(cur@) =~= before.update(
                before.len() - 1,
                before.last().push(b),
            ));
        }
        i = i + 1;
    }
    comps.push(cur);
    assert(p@.take(i as int) =~= p@);
    assert(views(comps@) =~= split_slash(p@));
    comps
}

/// `parts` joined with slashes between them.
pub open spec fn join_slash(parts: Seq<Seq<u8>>) -> Seq<u8>
    decreases parts.len(),
{
    if parts.len() == 0 {
        Seq::empty()
    } else if parts.len() == 1 {
        parts[0]
    } else {
        join_slash(parts.drop_last()) + seq![SLASH] + parts.last()
    }
}

/// Join path components with slashes between them.
pub fn join_components(parts: &[Vec<u8>]) -> (r: Vec<u8>)
    ensures
        r@ == join_slash(views(parts@)),
{
    let mut out: Vec<u8> = Vec::new();
    let mut i: usize = 0;
    while i < parts.len()
        invariant
            i <= parts@.len(),
            out@ == join_slash(views(parts@.take(i as int))),
        decreases parts@.len() - i,
    {
        let ghost before = out@;
        if i > 0 {
            out.push(SLASH);
        }
        let mut k: usize = 0;
        let part = &parts[i];
        let ghost mid = out@;
        while k < part.len()
            invariant
                k <= part@.len(),
                out@ == mid + part@.take(k as int),
            decreases part@.len() - k,
        {
            out.push(part[k]);
            assert(part@.take(k + 1) =~= part@.take(k as int).push(part@[k as int]));
            k = k + 1;
        }
        proof {
            assert(part@.take(k as int) =~= part@);
            let t = views(parts@.take(i + 1));
            assert(t.drop_last() =~= views(parts@.take(i as int)));
            assert(t.last() == parts@[i as int]@);
            if i == 0 {
                assert(out@ =~= join_slash(t));
            } else {
                assert(out@ =~= join_slash(t));
            }
        }
        i = i + 1;
    }
    assert(parts@.take(i as int) =~= parts@);
    out
}


/// A copy of `p[from..to]`.
pub fn copy_range(p: &[u8], from: usize, to: usize) -> (r: Vec<u8>)
    requires
        from <= to <= p@.len(),
    ensures
        r@ == p@.subrange(from as int, to as int),
{
    let mut out: Vec<u8> = Vec::new();
    let mut i: usize = from;
    while i < to
        invariant
            from <= i <= to,
            to <= p@.len(),
            out@ == p@.subrange(from as int, i as int),
        decreases to - i,
    {
        out.push(p[i]);
        assert(p@.subrange(from as int, i + 1) =~= p@.subrange(from as int, i as int).push(p@[i as int]));
        i = i + 1;
    }
    out
}

/// How long `p` is once every trailing slash is removed.
pub open spec fn without_trailing_slashes(p: Seq<u8>) -> nat
    decreases p.len(),
{
    if p.len() > 0 && p.last() == SLASH {
        without_trailing_slashes(p.drop_last())
    } else {
        p.len()
    }
}

/// `p` without its trailing slashes (a path of slashes only becomes `/`),
/// and whether anything was removed.
pub open spec fn spec_strip_trailing_slash(p: Seq<u8>) -> (Seq<u8>, bool) {
    let e = without_trailing_slashes(p);
    let keep = if e == 0 && p.len() > 0 {
        1
    } else {
        e
    };
    (p.take(keep as int), keep < p.len())
}

/// Remove the trailing slashes of a path, reporting whether there were any.
pub fn path_strip_trailing_slash(p: &[u8]) -> (r: (Vec<u8>, bool))
    ensures
        (r.0@, r.1) == spec_strip_trailing_slash(p@),
{
    let mut e: usize = p.len();
    assert(p@.take(e as int) =~= p@);
    while e > 0 && p[e - 1] == SLASH
        invariant
            e <= p@.len(),
            without_trailing_slashes(p@.take(e as int)) == without_trailing_slashes(p@),
        decreases e,
    {
        assert(p@.take(e as int).drop_last() =~= p@.take(e - 1));
        e = e - 1;
    }
    assert(without_trailing_slashes(p@.take(e as int)) == e);
    let keep: usize = if e == 0 && p.len() > 0 {
        1
    } else {
        e
    };
    (copy_range(p, 0, keep), keep < p.len())
}

/// Index of the last slash of `p`, or -1.
pub open spec fn last_slash(p: Seq<u8>) -> int
    decreases p.len(),
{
    if p.len() == 0 {
        -1
    } else if p.last() == SLASH {
        p.len() - 1
    } else {
        last_slash(p.drop_last())
    }
}

pub proof fn lemma_last_slash_bounds(p: Seq<u8>)
    ensures
        -1 <= last_slash(p) < p.len(),
        last_slash(p) >= 0 ==> p[last_slash(p)] == SLASH,
        forall|j: int| last_slash(p) < j < p.len() ==> p[j] != SLASH,
    decreases p.len(),
{
    if p.len() > 0 && p.last() != SLASH {
        lemma_last_slash_bounds(p.drop_last());
        assert forall|j: int| last_slash(p) < j < p.len() implies p[j] != SLASH by {
            if j < p.len() - 1 {
                assert(p[j] == p.drop_last()[j]);
            }
        }
    }
}

/// The index of the last slash in `p[..n]`.
pub fn find_last_slash(p: &[u8], n: usize) -> (r: Option<usize>)
    requires
        n <= p@.len(),
    ensures
        r matches Some(k) ==> k as int == last_slash(p@.take(n as int)),
        r is None ==> last_slash(p@.take(n as int)) == -1,
{
    let mut i: usize = n;
    while i > 0
        invariant
            i <= n <= p@.len(),
            last_slash(p@.take(n as int)) == last_slash(p@.take(i as int)),
        decreases i,
    {
        assert(p@.take(i as int).drop_last() =~= p@.take(i - 1));
        if p[i - 1] == SLASH {
            return Some(i - 1);
        }
        i = i - 1;
    }
    None
}

/// The parent of `p` and its trailing component: the parent is what comes
/// before the last slash (`/` when that is the first byte, `.` when there is
/// no slash); the trailing component is what follows it, `None` when empty.
pub open spec fn spec_path_split(p: Seq<u8>) -> (Seq<u8>, Option<Seq<u8>>) {
    let k = last_slash(p);
    let parent = if k < 0 {
        seq![DOT]
    } else if k == 0 {
        seq![SLASH]
    } else {
        p.take(k)
    };
    let base = p.skip(k + 1);
    (
        parent,
        if base.len() == 0 {
            None
        } else {
            Some(base)
        },
    )
}

/// Split a path into its parent and its trailing component.
pub fn path_split(p: &[u8]) -> (r: (Vec<u8>, Option<Vec<u8>>))
    ensures
        r.0@ == spec_path_split(p@).0,
        r.1 matches Some(t) ==> spec_path_split(p@).1 == Some(t@),
        r.1 is None ==> spec_path_split(p@).1 is None,
{
    proof {
        assert(p@.take(p@.len() as int) =~= p@);
        lemma_last_slash_bounds(p@);
    }
    let (parent, start) = match find_last_slash(p, p.len()) {
        None => (vec![DOT], 0usize),
        Some(k) => {
            if k == 0 {
                (vec![SLASH], 1usize)
            } else {
                (copy_range(p, 0, k), k + 1)
            }
        },
    };
    assert(parent@ =~= spec_path_split(p@).0);
    let base = copy_range(p, start, p.len());
    assert(base@ =~= p@.skip(last_slash(p@) + 1));
    if base.len() == 0 {
        (parent, None)
    } else {
        (parent, Some(base))
    }
}

/// The ancestors of `p[..n]`, nearest first, each with what remains of `p`
/// after it; the last one is `.` with all of `p` remaining.
pub open spec fn ancestors_from(p: Seq<u8>, n: nat) -> Seq<(Seq<u8>, Seq<u8>)>
    decreases n,
{
    let k = last_slash(p.take(n as int));
    if n > p.len() || k < 0 || k >= n {
        seq![(seq![DOT], p)]
    } else {
        seq![(p.take(k), p.skip(k + 1))] + ancestors_from(p, k as nat)
    }
}

/// The ancestors of a path used by a partial lookup, nearest first.
pub open spec fn spec_partial_ancestors(p: Seq<u8>) -> Seq<(Seq<u8>, Seq<u8>)> {
    ancestors_from(p, p.len())
}

/// The ancestors of a path, nearest first, each paired with the rest of the
/// path below it; used by partial lookups to find the deepest reachable one.
pub fn partial_ancestors(p: &[u8]) -> (r: Vec<(Vec<u8>, Vec<u8>)>)
    ensures
        r@.map_values(|e: (Vec<u8>, Vec<u8>)| (e.0@, e.1@)) == spec_partial_ancestors(p@),
{
    let mut out: Vec<(Vec<u8>, Vec<u8>)> = Vec::new();
    let mut n: usize = p.len();
    loop
        invariant
            n <= p@.len(),
            out@.map_values(|e: (Vec<u8>, Vec<u8>)| (e.0@, e.1@)) + ancestors_from(p@, n as nat)
                == spec_partial_ancestors(p@),
        decreases n,
    {
        let ghost before = out@.map_values(|e: (Vec<u8>, Vec<u8>)| (e.0@, e.1@));
        proof {
            lemma_last_slash_bounds(p@.take(n as int));
        }
        match find_last_slash(p, n) {
            None => {
                let dot = vec![DOT];
                assert(dot@ =~= seq![DOT]);
                out.push((dot, copy_range(p, 0, p.len())));
                proof {
                    assert(ancestors_from(p@, n as nat) == seq![(seq![DOT], p@)]);
                    assert(p@.subrange(0, p@.len() as int) =~= p@);
                    assert(out@.map_values(|e: (Vec<u8>, Vec<u8>)| (e.0@, e.1@)) =~= before + ancestors_from(p@, n as nat));
                }
                return out;
            },
            Some(k) => {
                let prefix = copy_range(p, 0, k);
                let rest = copy_range(p, k + 1, p.len());
                out.push((prefix, rest));
                proof {
                    assert(p@.subrange(0, k as int) =~= p@.take(k as int));
                    assert(p@.subrange(k + 1, p@.len() as int) =~= p@.skip(k + 1));
                    let a = ancestors_from(p@, n as nat);
                    assert(a == seq![(p@.take(k as int), p@.skip(k + 1))] + ancestors_from(p@, k as nat));
                    assert(out@.map_values(|e: (Vec<u8>, Vec<u8>)| (e.0@, e.1@)) + ancestors_from(p@, k as nat)
                        =~= before + a);
                }
                n = k;
            },
        }
    }
}

} // verus!
