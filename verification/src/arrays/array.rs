use crate::arrays::dynamic_array::DynamicArray;
use crate::arrays::internal::InternalArray;
use vstd::prelude::*;

verus! {

/// An array that cannot be changed. It is made of a
/// [`DynamicArray`] at no cost, and there is no way back.
pub struct Array<T> {
    internal: InternalArray<T>,
}

impl<T> View for Array<T> {
    type V = Seq<T>;

    /// The items of the array, the oldest first.
    closed spec fn view(&self) -> Seq<T> {
        self.internal.items@
    }
}

impl<T> Array<T> {
    #[verifier::type_invariant]
    spec fn within_capacity(self) -> bool {
        self.internal.items@.len() <= self.internal.capacity
    }

    /// The array that holds the items of `dynamic_array`.
    #[must_use]
    pub fn from_dynamic_array(dynamic_array: DynamicArray<T>) -> (array: Self)
        requires
            dynamic_array.wf(),
        ensures
            array@ == dynamic_array@,
    {
        Self { internal: dynamic_array.into_internal_array() }
    }

    /// The number of items.
    #[must_use]
    pub fn len(&self) -> (len: u32)
        ensures
            len == self@.len(),
    {
        proof {
            use_type_invariant(self);
        }
        self.internal.items.len() as u32
    }

    /// Whether the array holds no item.
    #[must_use]
    pub fn is_empty(&self) -> (empty: bool)
        ensures
            empty <==> self@.len() == 0,
    {
        self.internal.items.len() == 0
    }

    /// The items as a slice.
    #[must_use]
    pub fn as_slice(&self) -> (slice: &[T])
        ensures
            slice@ == self@,
    {
        self.internal.items.as_slice()
    }
}

impl<T> AsRef<[T]> for Array<T> {
    fn as_ref(&self) -> (slice: &[T])
        ensures
            slice@ == self@,
    {
        self.as_slice()
    }
}

} // verus!
