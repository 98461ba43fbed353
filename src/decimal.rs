//! Decimal rendering and reading of unsigned integers.
use vstd::prelude::*;

verus! {

pub open spec fn is_digit(c: char) -> bool {
    '0' <= c && c <= '9'
}

pub open spec fn digit_value(c: char) -> nat {
    (c as int - '0' as int) as nat
}

/// The value of a string of decimal digits (0 for the empty string).
pub open spec fn dec_value(f: Seq<char>) -> nat
    decreases f.len(),
{
    if f.len() == 0 {
        0
    } else {
        dec_value(f.drop_last()) * 10 + digit_value(f.last())
    }
}

/// The ASCII byte of a decimal digit.
pub open spec fn digit_byte(d: nat) -> u8 {
    ('0' as nat + d) as u8
}

/// The decimal rendering of `n` as ASCII bytes, without leading zeros.
pub open spec fn dec_bytes(n: nat) -> Seq<u8>
    decreases n,
{
    if n < 10 {
        seq![digit_byte(n)]
    } else {
        dec_bytes(n / 10).push(digit_byte(n % 10))
    }
}

/// Growing a digit string never makes its value smaller.
pub proof fn lemma_dec_value_push(f: Seq<char>, c: char)
    requires
        is_digit(c),
    ensures
        dec_value(f.push(c)) == dec_value(f) * 10 + digit_value(c),
        dec_value(f.push(c)) >= dec_value(f),
{
    assert(f.push(c).drop_last() =~= f);
}

/// Append the decimal rendering of `n` to `out`.
pub fn push_decimal(out: &mut Vec<u8>, n: u64)
    ensures
        final(out)@ == old(out)@ + dec_bytes(n as nat),
        forall|i: int| 0 <= i < dec_bytes(n as nat).len() ==> is_numeric_byte(#[trigger] dec_bytes(n as nat)[i]),
    decreases n,
{
    if n >= 10 {
        push_decimal(out, n / 10);
    }
    let d: u8 = (n % 10) as u8;
    out.push(48u8 + d);
    proof {
        assert(dec_bytes(n as nat) == if n < 10 {
            seq![digit_byte(n as nat)]
        } else {
            dec_bytes((n / 10) as nat).push(digit_byte((n % 10) as nat))
        });
    }
    assert(final(out)@ =~= old(out)@ + dec_bytes(n as nat));
}

pub open spec fn is_numeric_byte(b: u8) -> bool {
    (48 <= b && b <= 57) || b == 46
}

/// Append one character, a decimal digit or '.', to `s`.
fn append_numeric_byte(s: &mut String, b: u8)
    requires
        is_numeric_byte(b),
    ensures
        final(s)@ == old(s)@.push(b as char),
{
    let lit: &str = match b {
        48 => "0",
        49 => "1",
        50 => "2",
        51 => "3",
        52 => "4",
        53 => "5",
        54 => "6",
        55 => "7",
        56 => "8",
        57 => "9",
        _ => ".",
    };
    proof {
        reveal_strlit("0");
        reveal_strlit("1");
        reveal_strlit("2");
        reveal_strlit("3");
        reveal_strlit("4");
        reveal_strlit("5");
        reveal_strlit("6");
        reveal_strlit("7");
        reveal_strlit("8");
        reveal_strlit("9");
        reveal_strlit(".");
    }
    assert(lit@ =~= seq![b as char]);
    s.append(lit);
}

/// Append `b`, made of decimal digits and '.', to `s` as characters.
pub fn append_numeric(s: &mut String, b: &[u8])
    requires
        forall|i: int| 0 <= i < b@.len() ==> is_numeric_byte(#[trigger] b@[i]),
    ensures
        final(s)@ == old(s)@ + b@.map_values(|x: u8| x as char),
{
    let mut i: usize = 0;
    while i < b.len()
        invariant
            0 <= i <= b@.len(),
            forall|k: int| 0 <= k < b@.len() ==> is_numeric_byte(#[trigger] b@[k]),
            s@ == old(s)@ + b@.take(i as int).map_values(|x: u8| x as char),
        decreases b@.len() - i,
    {
        append_numeric_byte(s, b[i]);
        assert(b@.take(i + 1) =~= b@.take(i as int).push(b@[i as int]));
        assert(b@.take(i + 1).map_values(|x: u8| x as char) =~= b@.take(i as int).map_values(
            |x: u8| x as char,
        ).push(b@[i as int] as char));
        i = i + 1;
    }
    assert(b@.take(i as int) =~= b@);
}

} // verus!

verus! {

/// The bytes of an ASCII string.
pub open spec fn ascii_of(s: Seq<char>) -> Seq<u8> {
    s.map_values(|c: char| c as u8)
}

/// Copy out the bytes of an ASCII string.
pub fn ascii_bytes(s: &str) -> (r: Vec<u8>)
    requires
        s.is_ascii(),
    ensures
        r@ == ascii_of(s@),
{
    proof {
        vstd::string::is_ascii_spec_bytes(s);
    }
    let r = s.as_bytes_vec();
    assert(r@ =~= ascii_of(s@));
    r
}

} // verus!
