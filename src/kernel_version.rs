//! Linux kernel versions: parsing, comparison and rendering.
use crate::decimal::{append_numeric, dec_bytes, dec_value, digit_value, is_digit, lemma_dec_value_push, push_decimal};
use std::cmp::Ordering;
use vstd::prelude::*;

verus! {

/// A Linux kernel version, one number per dot-separated component.
///
/// Versions compare component by component from the left, the shorter one
/// padded on the right with zeros, so `3[.0.0] < 3.1[.0] < 3.1.18 < 4[.0.0]`.
#[derive(Clone, Debug)]
pub struct KernelVersion(pub Vec<u64>);

impl View for KernelVersion {
    type V = Seq<u64>;

    open spec fn view(&self) -> Seq<u64> {
        self.0@
    }
}

/// Component `i` of a version, zero past its end.
pub open spec fn component(v: Seq<u64>, i: int) -> int {
    if 0 <= i < v.len() {
        v[i] as int
    } else {
        0
    }
}

/// Comparison of two versions from component `i` on.
pub open spec fn cmp_from(a: Seq<u64>, b: Seq<u64>, i: nat) -> Ordering
    decreases a.len() + b.len() - i,
{
    if i >= a.len() && i >= b.len() {
        Ordering::Equal
    } else if component(a, i as int) < component(b, i as int) {
        Ordering::Less
    } else if component(a, i as int) > component(b, i as int) {
        Ordering::Greater
    } else {
        cmp_from(a, b, i + 1)
    }
}

/// The order of kernel versions: lexicographic over zero-padded components.
pub open spec fn kver_cmp(a: Seq<u64>, b: Seq<u64>) -> Ordering {
    cmp_from(a, b, 0)
}

impl KernelVersion {
    /// Compare two kernel versions.
    pub fn cmp(&self, other: &Self) -> (r: Ordering)
        ensures
            r == kver_cmp(self@, other@),
    {
        let a = &self.0;
        let b = &other.0;
        let n: usize = if a.len() > b.len() {
            a.len()
        } else {
            b.len()
        };
        let mut i: usize = 0;
        while i < n
            invariant
                n == if a@.len() > b@.len() {
                    a@.len()
                } else {
                    b@.len()
                },
                i <= n,
                a@ == self@,
                b@ == other@,
                kver_cmp(a@, b@) == cmp_from(a@, b@, i as nat),
            decreases n - i,
        {
            let x: u64 = if i < a.len() {
                a[i]
            } else {
                0
            };
            let y: u64 = if i < b.len() {
                b[i]
            } else {
                0
            };
            assert(x as int == component(a@, i as int));
            assert(y as int == component(b@, i as int));
            if x < y {
                return Ordering::Less;
            } else if x > y {
                return Ordering::Greater;
            }
            i = i + 1;
        }
        Ordering::Equal
    }

    /// Render the version as `linux-A.B.C`.
    pub fn to_string(&self) -> (r: String)
        ensures
            r@ == "linux-"@ + join_components(self@),
    {
        let mut s = String::from_str("linux-");
        let v = &self.0;
        let mut i: usize = 0;
        while i < v.len()
            invariant
                0 <= i <= v@.len(),
                s@ == "linux-"@ + join_components(v@.take(i as int)),
            decreases v@.len() - i,
        {
            let mut digits: Vec<u8> = Vec::new();
            if i > 0 {
                digits.push(46u8);
            }
            push_decimal(&mut digits, v[i]);
            proof {
                reveal_strlit(".");
                assert(v@.take(i + 1).drop_last() =~= v@.take(i as int));
                assert(v@.take(i + 1).last() == v@[i as int]);
                if i > 0 {
                    assert(digits@ =~= seq![46u8] + dec_bytes(v@[i as int] as nat));
                }
                assert forall|k: int| 0 <= k < digits@.len() implies crate::decimal::is_numeric_byte(
                    #[trigger] digits@[k],
                ) by {
                    if i > 0 && k > 0 {
                        assert(digits@[k] == dec_bytes(v@[i as int] as nat)[k - 1]);
                    }
                    if i == 0 {
                        assert(digits@ =~= dec_bytes(v@[i as int] as nat));
                    }
                }
            }
            let ghost before = s@;
            append_numeric(&mut s, digits.as_slice());
            proof {
                let d = dec_bytes(v@[i as int] as nat).map_values(|b: u8| b as char);
                if i == 0 {
                    assert(digits@ =~= dec_bytes(v@[i as int] as nat));
                    assert(v@.take(1) =~= seq![v@[0]]);
                    assert(s@ =~= "linux-"@ + join_components(v@.take(1)));
                } else {
                    assert(digits@.map_values(|b: u8| b as char) =~= seq!['.'] + d);
                    assert(s@ =~= "linux-"@ + join_components(v@.take(i + 1)));
                }
            }
            i = i + 1;
        }
        assert(v@.take(i as int) =~= v@);
        s
    }
}

/// The components of a version in decimal, separated by dots.
pub open spec fn join_components(v: Seq<u64>) -> Seq<char>
    decreases v.len(),
{
    if v.len() == 0 {
        Seq::empty()
    } else if v.len() == 1 {
        dec_bytes(v[0] as nat).map_values(|b: u8| b as char)
    } else {
        join_components(v.drop_last()) + seq!['.'] + dec_bytes(v.last() as nat).map_values(
            |b: u8| b as char,
        )
    }
}


pub open spec fn is_version_char(c: char) -> bool {
    is_digit(c) || c == '.'
}

/// Where the leading run of digits and dots of `s` ends, looking from `i`.
pub open spec fn version_prefix_end(s: Seq<char>, i: nat) -> nat
    decreases s.len() - i,
{
    if i >= s.len() || !is_version_char(s[i as int]) {
        i
    } else {
        version_prefix_end(s, i + 1)
    }
}

/// The fields of `p` between dots (an empty field where two dots meet).
pub open spec fn split_dots(p: Seq<char>) -> Seq<Seq<char>>
    decreases p.len(),
{
    if p.len() == 0 {
        seq![Seq::empty()]
    } else {
        let r = split_dots(p.drop_last());
        if p.last() == '.' {
            r.push(Seq::empty())
        } else {
            r.update(r.len() - 1, r.last().push(p.last()))
        }
    }
}

/// A version field is non-empty and its value fits in 64 bits.
pub open spec fn field_ok(f: Seq<char>) -> bool {
    f.len() > 0 && dec_value(f) <= u64::MAX
}

/// The version that a kernel release string starts with: the leading run of
/// digits and dots, split at the dots; at least two fields, each a number.
pub open spec fn spec_parse_kernel_version(s: Seq<char>) -> Option<Seq<u64>> {
    let fs = split_dots(s.take(version_prefix_end(s, 0) as int));
    if fs.len() >= 2 && forall|j: int| 0 <= j < fs.len() ==> field_ok(#[trigger] fs[j]) {
        Some(Seq::new(fs.len(), |j: int| dec_value(fs[j]) as u64))
    } else {
        None
    }
}

proof fn lemma_split_dots_len(p: Seq<char>)
    ensures
        split_dots(p).len() >= 1,
    decreases p.len(),
{
    if p.len() > 0 {
        lemma_split_dots_len(p.drop_last());
    }
}

/// Parse a kernel version string such as `"4.10.23-1-default"` into a
/// [`KernelVersion`]; any suffix after the leading digits and dots is ignored.
pub fn parse_kernel_version(kver_str: &str) -> (r: Option<KernelVersion>)
    ensures
        r matches Some(v) ==> spec_parse_kernel_version(kver_str@) == Some(v@),
        r is None ==> spec_parse_kernel_version(kver_str@) is None,
{
    let ghost s = kver_str@;
    let len = kver_str.unicode_len();
    let mut fields: Vec<u64> = Vec::new();
    let mut cur: u64 = 0;
    let mut cur_len: usize = 0;
    let mut cur_over = false;
    let mut bad = false;
    let mut i: usize = 0;
    proof {
        assert(s.take(0) =~= Seq::<char>::empty());
    }
    while i < len
        invariant
            len == s.len(),
            i == len ==> version_prefix_end(s, i as nat) == i as nat,
            s == kver_str@,
            i <= len,
            version_prefix_end(s, 0) == version_prefix_end(s, i as nat),
            split_dots(s.take(i as int)).len() >= 1,
            bad == !(forall|j: int|
                0 <= j < split_dots(s.take(i as int)).len() - 1 ==> field_ok(
                    #[trigger] split_dots(s.take(i as int))[j],
                )),
            !bad ==> fields@.len() == split_dots(s.take(i as int)).len() - 1,
            !bad ==> forall|j: int|
                0 <= j < fields@.len() ==> fields@[j] as int == dec_value(
                    #[trigger] split_dots(s.take(i as int))[j],
                ),
            cur_len as int == split_dots(s.take(i as int)).last().len(),
            cur_len <= i,
            cur_over == (dec_value(split_dots(s.take(i as int)).last()) > u64::MAX),
            !cur_over ==> cur as int == dec_value(split_dots(s.take(i as int)).last()),
        ensures
            version_prefix_end(s, 0) == i as nat,
        decreases len - i,
    {
        let c = kver_str.get_char(i);
        let ghost fs = split_dots(s.take(i as int));
        proof {
            assert(s.take(i + 1).drop_last() =~= s.take(i as int));
            assert(s.take(i + 1).last() == c);
        }
        if c == '.' {
            if cur_len == 0 || cur_over {
                bad = true;
            } else if !bad {
                fields.push(cur);
            }
            cur = 0;
            cur_len = 0;
            cur_over = false;
            proof {
                let fs2 = split_dots(s.take(i + 1));
                assert(fs2 == fs.push(Seq::<char>::empty()));
                assert(forall|j: int| 0 <= j < fs.len() ==> fs2[j] == fs[j]);
            }
        } else if '0' <= c && c <= '9' {
            let d: u64 = (c as u32 - '0' as u32) as u64;
            proof {
                let fs2 = split_dots(s.take(i + 1));
                assert(fs2 == fs.update(fs.len() - 1, fs.last().push(c)));
                assert(forall|j: int| 0 <= j < fs.len() - 1 ==> fs2[j] == fs[j]);
                assert(fs2.last() == fs.last().push(c));
                lemma_dec_value_push(fs.last(), c);
            }
            if !cur_over {
                match cur.checked_mul(10) {
                    Some(m) => match m.checked_add(d) {
                        Some(v) => {
                            cur = v;
                        },
                        None => {
                            cur_over = true;
                        },
                    },
                    None => {
                        proof {
                            assert(dec_value(fs.last()) * 10 + digit_value(c) >= dec_value(fs.last()) * 10);
                        }
                        cur_over = true;
                    },
                }
            }
            cur_len = cur_len + 1;
        } else {
            assert(version_prefix_end(s, i as nat) == i as nat);
            break;
        }
        i = i + 1;
    }
    proof {
        lemma_split_dots_len(s.take(i as int));
    }
    let ghost fs = split_dots(s.take(i as int));
    if bad || cur_len == 0 || cur_over {
        assert(!field_ok(fs.last()) || !(forall|j: int| 0 <= j < fs.len() - 1 ==> field_ok(#[trigger] fs[j])));
        return None;
    }
    fields.push(cur);
    if fields.len() < 2 {
        return None;
    }
    proof {
        assert(forall|j: int| 0 <= j < fs.len() ==> field_ok(#[trigger] fs[j]));
        assert(fields@ =~= Seq::new(fs.len(), |j: int| dec_value(fs[j]) as u64));
    }
    Some(KernelVersion(fields))
}

/// Relies on `rustix::system::uname`: the release string of the running
/// kernel (what `uname -r` prints), read as UTF-8 with invalid sequences
/// replaced. It depends on the machine, so nothing is stated of it.
#[verifier::external_body]
fn uname_release() -> (r: String) {
    rustix::system::uname().release().to_string_lossy().into_owned()
}

/// The version of the running kernel, `None` when its release string does
/// not start with a version.
pub fn host_kernel_version() -> (r: Option<KernelVersion>)
    ensures
        r matches Some(v) ==> exists|s: Seq<char>| spec_parse_kernel_version(s) == Some(v@),
{
    let release = uname_release();
    parse_kernel_version(release.as_str())
}

impl PartialEq for KernelVersion {
    fn eq(&self, other: &Self) -> (r: bool)
        ensures
            r == (kver_cmp(self@, other@) == Ordering::Equal),
    {
        match self.cmp(other) {
            Ordering::Equal => true,
            _ => false,
        }
    }
}

impl vstd::std_specs::cmp::PartialEqSpecImpl for KernelVersion {
    open spec fn obeys_eq_spec() -> bool {
        true
    }

    open spec fn eq_spec(&self, other: &KernelVersion) -> bool {
        kver_cmp(self@, other@) == Ordering::Equal
    }
}

impl Eq for KernelVersion {

}

impl PartialOrd for KernelVersion {
    fn partial_cmp(&self, other: &Self) -> (r: Option<Ordering>)
        ensures
            r == Some(kver_cmp(self@, other@)),
    {
        Some(self.cmp(other))
    }
}

impl vstd::std_specs::cmp::PartialOrdSpecImpl for KernelVersion {
    open spec fn obeys_partial_cmp_spec() -> bool {
        true
    }

    open spec fn partial_cmp_spec(&self, other: &KernelVersion) -> Option<Ordering> {
        Some(kver_cmp(self@, other@))
    }
}

} // verus!
