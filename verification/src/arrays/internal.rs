use vstd::prelude::*;

verus! {

/// What a [`crate::arrays::DynamicArray`] and an
/// [`crate::arrays::Array`] are made of: the items, and the number of items
/// that room was reserved for.
pub struct InternalArray<T> {
    pub items: Vec<T>,
    pub capacity: u32,
}

} // verus!
