use vstd::prelude::*;

use crate::saiga_vte::ansi::c0::{is_c0, spec_is_c0};

verus! {

/// The position of the first C0 control (`0x00..=0x1F` or DEL) in
/// `haystack`, byte by byte.
fn first_index_of_c0_scalar(haystack: &[u8]) -> (r: Option<usize>)
    ensures
        r matches Some(i) ==> i < haystack@.len() && spec_is_c0(haystack@[i as int]) && forall|j: int|
            0 <= j < i ==> !spec_is_c0(#[trigger] haystack@[j]),
        r is None ==> forall|j: int| 0 <= j < haystack@.len() ==> !spec_is_c0(#[trigger] haystack@[j]),
{
    let mut i: usize = 0;
    while i < haystack.len()
        invariant
            i <= haystack@.len(),
            forall|j: int| 0 <= j < i ==> !spec_is_c0(#[trigger] haystack@[j]),
        decreases haystack@.len() - i,
    {
        if is_c0(haystack[i]) {
            return Some(i);
        }
        i = i + 1;
    }
    None
}

/// The position of the first C0 control in `haystack`, if any.
pub fn first_index_of_c0(haystack: &[u8]) -> (r: Option<usize>)
    ensures
        r matches Some(i) ==> i < haystack@.len() && spec_is_c0(haystack@[i as int]) && forall|j: int|
            0 <= j < i ==> !spec_is_c0(#[trigger] haystack@[j]),
        r is None ==> forall|j: int| 0 <= j < haystack@.len() ==> !spec_is_c0(#[trigger] haystack@[j]),
{
    first_index_of_c0_scalar(haystack)
}

} // verus!
