//! Small text-building helpers shared by the formatting modules.

use vstd::prelude::*;

verus! {

/// Relies on String::push: appends exactly the given character.
#[verifier::external_body]
pub fn push_char(s: &mut String, c: char)
    ensures
        final(s)@ == old(s)@.push(c),
{
    s.push(c);
}

/// Relies on char::from_u32: every Unicode scalar value (below the
/// surrogate range, or above it and at most 0x10FFFF) makes exactly one
/// character, and anything else makes none.
#[verifier::external_body]
pub fn char_from_u32(u: u32) -> (r: Option<char>)
    ensures
        r matches Some(c) ==> c as u32 == u,
        u < 0xD800 ==> r is Some,
        0xE000 <= u && u <= 0x10FFFF ==> r is Some,
{
    char::from_u32(u)
}

/// Builds the string holding exactly the given characters.
pub fn chars_to_string(v: &Vec<char>) -> (s: String)
    ensures
        s@ == v@,
{
    let mut s = String::new();
    push_seq(&mut s, v);
    proof {
        assert(s@ =~= v@);
    }
    s
}

/// Converts a string slice into the vector of its characters.
pub fn to_chars(s: &str) -> (v: Vec<char>)
    ensures
        v@ == s@,
{
    let n = s.unicode_len();
    let mut v: Vec<char> = Vec::new();
    let mut i: usize = 0;
    while i < n
        invariant
            n == s@.len(),
            i <= n,
            v@ == s@.subrange(0, i as int),
        decreases n - i,
    {
        v.push(s.get_char(i));
        proof {
            assert(v@ =~= s@.subrange(0, i as int + 1));
        }
        i = i + 1;
    }
    proof {
        assert(v@ =~= s@);
    }
    v
}

/// Appends every character of `tail` to `s`.
pub fn push_seq(s: &mut String, tail: &Vec<char>)
    ensures
        final(s)@ == old(s)@ + tail@,
{
    let mut i: usize = 0;
    while i < tail.len()
        invariant
            i <= tail@.len(),
            s@ == old(s)@ + tail@.subrange(0, i as int),
        decreases tail@.len() - i,
    {
        push_char(s, tail[i]);
        proof {
            assert(old(s)@ + tail@.subrange(0, i as int + 1) =~= (old(s)@ + tail@.subrange(
                0,
                i as int,
            )).push(tail@[i as int]));
        }
        i = i + 1;
    }
    proof {
        assert(old(s)@ + tail@.subrange(0, tail@.len() as int) =~= old(s)@ + tail@);
    }
}

} // verus!
