//! The sections that an overview of the list is split into.
use vstd::prelude::*;

verus! {

pub open spec fn at_most(a: int, b: int) -> int {
    if a < b {
        a
    } else {
        b
    }
}

/// Where the main section and the extended section of a list of `n` demons
/// end: the main section holds the first `list_size` demons, the extended
/// section those after it up to `extended_list_size`, and the legacy section
/// the rest. A section past the end of the list is empty.
pub fn section_bounds(n: usize, list_size: usize, extended_list_size: usize) -> (r: (usize, usize))
    requires
        list_size <= extended_list_size,
    ensures
        r.0 == at_most(n as int, list_size as int),
        r.1 == at_most(n as int, extended_list_size as int),
        r.0 <= r.1 <= n,
{
    if n < list_size {
        (n, n)
    } else if n < extended_list_size {
        (list_size, n)
    } else {
        (list_size, extended_list_size)
    }
}

} // verus!
