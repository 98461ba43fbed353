//! Sysctls: where one lives under procfs, and how its first line is read as
//! a number.
use crate::decimal::{ascii_bytes, ascii_of, dec_value, lemma_dec_value_push};
use crate::error::{Error, ErrorImpl, ErrorKind};
use crate::path::{DOT, SLASH};
use vstd::prelude::*;
use vstd::string::StringSliceAdditionalSpecFns;

verus! {

/// A sysctl name with its dots turned into slashes.
pub open spec fn dots_to_slashes(b: Seq<u8>) -> Seq<u8> {
    b.map_values(|x: u8| if x == DOT { SLASH } else { x })
}

/// The path of a sysctl relative to the procfs root: `foo.bar.baz` lives at
/// `sys/foo/bar/baz`.
pub fn sysctl_path(sysctl: &str) -> (r: Vec<u8>)
    ensures
        r@ == ascii_of("sys/"@) + dots_to_slashes(sysctl.spec_bytes()),
{
    proof {
        reveal_strlit("sys/");
    }
    let mut out = ascii_bytes("sys/");
    let ghost start = out@;
    let name = sysctl.as_bytes();
    let mut i: usize = 0;
    while i < name.len()
        invariant
            i <= name@.len(),
            name@ == sysctl.spec_bytes(),
            out@ == start + dots_to_slashes(name@.take(i as int)),
        decreases name@.len() - i,
    {
        let b = name[i];
        out.push(if b == DOT {
            SLASH
        } else {
            b
        });
        assert(dots_to_slashes(name@.take(i + 1)) =~= dots_to_slashes(name@.take(i as int)).push(
            if b == DOT {
                SLASH
            } else {
                b
            },
        ));
        i = i + 1;
    }
    assert(name@.take(i as int) =~= name@);
    out
}

/// How long `b` is without its trailing newlines.
pub open spec fn without_trailing_newlines(b: Seq<u8>) -> nat
    decreases b.len(),
{
    if b.len() > 0 && b.last() == 10 {
        without_trailing_newlines(b.drop_last())
    } else {
        b.len()
    }
}

/// A line without its trailing newlines.
pub fn trim_newlines(line: &[u8]) -> (r: Vec<u8>)
    ensures
        r@ == line@.take(without_trailing_newlines(line@) as int),
{
    let mut e: usize = line.len();
    assert(line@.take(e as int) =~= line@);
    while e > 0 && line[e - 1] == 10
        invariant
            e <= line@.len(),
            without_trailing_newlines(line@.take(e as int)) == without_trailing_newlines(line@),
        decreases e,
    {
        assert(line@.take(e as int).drop_last() =~= line@.take(e - 1));
        e = e - 1;
    }
    assert(without_trailing_newlines(line@.take(e as int)) == e);
    crate::path::copy_range(line, 0, e)
}

/// The characters of ASCII bytes.
pub open spec fn chars_of(b: Seq<u8>) -> Seq<char> {
    b.map_values(|x: u8| x as char)
}

/// The digits of an unsigned decimal number, after an optional `+`.
pub open spec fn number_digits(b: Seq<u8>) -> Seq<u8> {
    if b.len() > 0 && b[0] == 43 {
        b.drop_first()
    } else {
        b
    }
}

/// Whether every byte is an ASCII digit.
pub open spec fn all_digits(d: Seq<u8>) -> bool {
    forall|i: int| 0 <= i < d.len() ==> 48 <= #[trigger] d[i] <= 57
}

/// The value of an unsigned decimal number as the standard library reads
/// it: an optional `+`, then one or more digits, fitting in 64 bits.
pub open spec fn spec_parse_u64(b: Seq<u8>) -> Option<u64> {
    let d = number_digits(b);
    if d.len() > 0 && all_digits(d) && dec_value(chars_of(d)) <= u64::MAX {
        Some(dec_value(chars_of(d)) as u64)
    } else {
        None
    }
}

/// Read an unsigned decimal number; anything else is an internal error,
/// since the kernel wrote it.
pub fn parse_u64(b: &[u8]) -> (r: Result<u64, Error>)
    ensures
        r matches Ok(v) ==> spec_parse_u64(b@) == Some(v),
        r is Err ==> spec_parse_u64(b@) is None,
        r matches Err(e) ==> e.spec_kind() == ErrorKind::InternalError,
{
    let start: usize = if b.len() > 0 && b[0] == 43 {
        1
    } else {
        0
    };
    let ghost d = number_digits(b@);
    assert(d =~= b@.skip(start as int));
    if start == b.len() {
        return Err(Error::new(ErrorImpl::Parse { description: "cannot parse integer from empty string".to_owned() }));
    }
    let mut v: u64 = 0;
    let mut i: usize = start;
    assert(chars_of(d.take(0)) =~= Seq::<char>::empty());
    while i < b.len()
        invariant
            start <= i <= b@.len(),
            d == b@.skip(start as int),
            d == number_digits(b@),
            forall|k: int| 0 <= k < i - start ==> 48 <= #[trigger] d[k] <= 57,
            v as int == dec_value(chars_of(d.take(i - start))),
        decreases b@.len() - i,
    {
        let c = b[i];
        assert(d[i - start] == c);
        if c < 48 || c > 57 {
            assert(!all_digits(d));
            return Err(Error::new(ErrorImpl::Parse { description: "invalid digit found in string".to_owned() }));
        }
        let k: u64 = (c - 48) as u64;
        proof {
            assert(chars_of(d.take(i - start + 1)) =~= chars_of(d.take(i - start)).push(c as char));
            lemma_dec_value_push(chars_of(d.take(i - start)), c as char);
        }
        let next = match v.checked_mul(10) {
            Some(m) => m.checked_add(k),
            None => None,
        };
        match next {
            Some(n) => {
                v = n;
            },
            None => {
                proof {
                    assert(dec_value(chars_of(d.take(i - start + 1))) > u64::MAX);
                    if all_digits(d) {
                        lemma_dec_value_grows(d, (i - start + 1) as nat);
                    }
                }
                return Err(Error::new(ErrorImpl::Parse { description: "number too large to fit in target type".to_owned() }));
            },
        }
        i = i + 1;
    }
    assert(d.take(i - start) =~= d);
    Ok(v)
}

/// The value of a prefix of digits is at most that of the whole.
proof fn lemma_dec_value_grows(d: Seq<u8>, n: nat)
    requires
        n <= d.len(),
        all_digits(d),
    ensures
        dec_value(chars_of(d.take(n as int))) <= dec_value(chars_of(d)),
    decreases d.len() - n,
{
    if n < d.len() {
        lemma_dec_value_grows(d, n + 1);
        assert(48 <= d[n as int] <= 57);
        assert(chars_of(d.take(n as int + 1)) =~= chars_of(d.take(n as int)).push(d[n as int] as char));
        lemma_dec_value_push(chars_of(d.take(n as int)), d[n as int] as char);
    } else {
        assert(d.take(n as int) =~= d);
    }
}

/// Read the first line of a sysctl as a number: its trailing newlines are
/// dropped first.
pub fn sysctl_parse_u64(line: &[u8]) -> (r: Result<u64, Error>)
    ensures
        r matches Ok(v) ==> spec_parse_u64(line@.take(without_trailing_newlines(line@) as int)) == Some(v),
        r is Err ==> spec_parse_u64(line@.take(without_trailing_newlines(line@) as int)) is None,
        r matches Err(e) ==> e.spec_kind() == ErrorKind::InternalError,
{
    let trimmed = trim_newlines(line);
    match parse_u64(trimmed.as_slice()) {
        Ok(v) => Ok(v),
        Err(e) => Err(e.wrap("could not parse sysctl as u64")),
    }
}

} // verus!
