//! Looking at the source text around an index.

use vstd::prelude::*;

verus! {

/// Whether the character with index `i` exists and is `c`.
pub open spec fn is_at(src: Seq<char>, i: int, c: char) -> bool {
    0 <= i < src.len() && src[i] == c
}

/// Whether the character `k` places after index `i` exists and is `c`.
pub fn at(src: &Vec<char>, i: usize, k: usize, c: char) -> (b: bool)
    requires
        i <= src.len(),
    ensures
        b == is_at(src@, i + k, c),
{
    k < src.len() - i && src[i + k] == c
}

/// The character `k` places after index `i`, if there is one.
pub fn peek(src: &Vec<char>, i: usize, k: usize) -> (c: Option<char>)
    requires
        i <= src.len(),
    ensures
        c == (if i + k < src.len() {
            Some(src@[i + k])
        } else {
            None
        }),
{
    if k < src.len() - i {
        Some(src[i + k])
    } else {
        None
    }
}

} // verus!
