//! Views of lists.

use vstd::prelude::*;

verus! {

/// The contents of the items in `list`.
pub open spec fn contents<T: View>(list: Seq<T>) -> Seq<T::V> {
    list.map_values(|item: T| item@)
}

} // verus!
