//! What is checked of a resource after it was read.

use vstd::prelude::*;

verus! {

/// Whether the bytes hold a zero, which ends a C string before its end.
pub fn contains_nil(buffer: &Vec<u8>) -> (found: bool)
    ensures
        found == exists|i: int| 0 <= i < buffer@.len() && buffer@[i] == 0,
{
    let mut i: usize = 0;
    while i < buffer.len()
        invariant
            i <= buffer@.len(),
            forall|j: int| 0 <= j < i ==> buffer@[j] != 0,
        decreases buffer@.len() - i,
    {
        if buffer[i] == 0 {
            return true;
        }
        i = i + 1;
    }
    false
}

/// A buffer of `len` spaces, to be filled with a message.
pub fn whitespace(len: usize) -> (buffer: Vec<u8>)
    ensures
        buffer@ == Seq::new(len as nat, |i: int| 32u8),
{
    let mut buffer: Vec<u8> = Vec::new();
    for filled in 0..len
        invariant
            buffer@ == Seq::new(filled as nat, |i: int| 32u8),
    {
        buffer.push(32);
        assert(buffer@ =~= Seq::new((filled + 1) as nat, |i: int| 32u8));
    }
    buffer
}

} // verus!
