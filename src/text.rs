//! Character-level helpers on strings.

use vstd::prelude::*;

verus! {

/// The ASCII digit for `d`, which must be below ten.
pub open spec fn digit_char(d: nat) -> char {
    ((48 + d) as u8) as char
}

/// The decimal representation of `n`, without sign or leading zeros.
pub open spec fn decimal(n: nat) -> Seq<char>
    decreases n,
{
    if n < 10 {
        seq![digit_char(n)]
    } else {
        decimal(n / 10).push(digit_char(n % 10))
    }
}

/// Relies on `String::push`: appends one character.
#[verifier::external_body]
pub(crate) fn push_char(s: &mut String, c: char)
    ensures
        final(s)@ == old(s)@.push(c),
{
    s.push(c)
}

/// Appends the decimal representation of `n` to `s`.
pub fn push_decimal(s: &mut String, n: usize)
    ensures
        final(s)@ == old(s)@ + decimal(n as nat),
    decreases n,
{
    if n >= 10 {
        push_decimal(s, n / 10);
    }
    let d: u8 = (n % 10) as u8;
    push_char(s, (48u8 + d) as char);
    assert(final(s)@ == old(s)@ + decimal(n as nat));
}


/// The characters of `s`, in order.
pub fn chars_of(s: &str) -> (r: Vec<char>)
    ensures
        r@ == s@,
{
    let mut r: Vec<char> = Vec::new();
    for c in it: s.chars()
        invariant
            r@ == it.seq().subrange(0, it.index() as int),
    {
        r.push(c);
    }
    proof {
        broadcast use vstd::string::group_string_axioms;
    }
    assert(r@ =~= s@);
    r
}

/// The string made of the characters `cs`.
pub fn string_of(cs: &[char]) -> (r: String)
    ensures
        r@ == cs@,
{
    let mut r = String::new();
    let mut i: usize = 0;
    while i < cs.len()
        invariant
            i <= cs@.len(),
            r@ == cs@.subrange(0, i as int),
        decreases cs@.len() - i,
    {
        push_char(&mut r, cs[i]);
        assert(r@ =~= cs@.subrange(0, i + 1));
        i += 1;
    }
    assert(r@ =~= cs@);
    r
}

} // verus!
