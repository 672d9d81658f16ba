//! Comparing byte strings.

use vstd::prelude::*;

verus! {

/// Whether `bytes` begins with `prefix`.
pub fn begins_with(bytes: &[u8], prefix: &[u8]) -> (yes: bool)
    ensures
        yes == prefix@.is_prefix_of(bytes@),
{
    if prefix.len() > bytes.len() {
        return false;
    }
    let mut at: usize = 0;
    while at < prefix.len()
        invariant
            at <= prefix@.len() <= bytes@.len(),
            prefix@.subrange(0, at as int) == bytes@.subrange(0, at as int),
        decreases prefix@.len() - at,
    {
        if prefix[at] != bytes[at] {
            assert(prefix@[at as int] != bytes@.subrange(0, prefix@.len() as int)[at as int]);
            return false;
        }
        at = at + 1;
        assert(prefix@.subrange(0, at as int) =~= prefix@.subrange(0, at - 1).push(
            prefix@[at - 1],
        ));
        assert(bytes@.subrange(0, at as int) =~= bytes@.subrange(0, at - 1).push(bytes@[at - 1]));
    }
    assert(prefix@.subrange(0, at as int) =~= prefix@);
    true
}

/// Whether the two byte strings are the same, byte for byte.
pub fn same_bytes(left: &[u8], right: &[u8]) -> (yes: bool)
    ensures
        yes == (left@ == right@),
{
    if left.len() != right.len() {
        return false;
    }
    let yes = begins_with(left, right);
    assert(left@.subrange(0, left@.len() as int) =~= left@);
    yes
}

} // verus!
