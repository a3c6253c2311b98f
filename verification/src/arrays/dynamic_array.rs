use crate::arrays::array::Array;
use crate::arrays::internal::InternalArray;
use std::collections::TryReserveError;
use vstd::layout::size_of;
use vstd::prelude::*;
use vstd::std_specs::convert::FromSpecImpl;

verus! {

/// The allocator could not give the memory that was asked for.
#[derive(PartialEq, Eq, Structural, Clone, Copy, Debug)]
pub struct AllocationError;

/// Why an array was not made, or did not grow.
#[derive(PartialEq, Eq, Structural, Clone, Copy, Debug)]
pub enum DynamicArrayError {
    /// The allocator could not give the memory, most likely because none is
    /// left.
    AllocationError,
    /// The capacity would exceed [`DynamicArray::max_length()`].
    CapacityTooBig,
    /// The capacity is smaller than [`DynamicArray::min_capacity()`].
    CapacityTooSmall,
}

impl From<AllocationError> for DynamicArrayError {
    fn from(value: AllocationError) -> (ret: Self) {
        Self::AllocationError
    }
}

impl FromSpecImpl<AllocationError> for DynamicArrayError {
    open spec fn obeys_from_spec() -> bool {
        true
    }

    open spec fn from_spec(v: AllocationError) -> Self {
        DynamicArrayError::AllocationError
    }
}

/// The smallest capacity an array can have.
pub const MIN_CAPACITY: u32 = 32;

/// The most bytes the items of an array may take together.
pub const MAX_BYTES: usize = 0x7fff_ffff;

/// The capacity that an array of capacity `capacity` grows to when it is
/// full: eight fifths of what it had, rounded down, and never more than 32
/// bits hold.
pub open spec fn grown(capacity: u32) -> u32 {
    if capacity as int * 8 / 5 > u32::MAX {
        u32::MAX
    } else {
        (capacity as int * 8 / 5) as u32
    }
}

/// The most items of `item_size` bytes each that an array can hold: as many
/// as fit in [`MAX_BYTES`] bytes, and as many as there are bytes in
/// [`MAX_BYTES`] where an item takes no room at all.
pub open spec fn max_items(item_size: nat) -> u32 {
    if item_size == 0 {
        MAX_BYTES as u32
    } else {
        (MAX_BYTES as nat / item_size) as u32
    }
}

/// A growable array. Unlike a vector it always has room reserved, for at
/// least [`DynamicArray::min_capacity()`] items; it holds at most
/// [`DynamicArray::max_length()`] items; when it is full it grows by eight
/// fifths; and it reports a failed allocation to its caller.
pub struct DynamicArray<T> {
    internal: InternalArray<T>,
}

impl<T> View for DynamicArray<T> {
    type V = Seq<T>;

    /// The items of the array, the oldest first.
    closed spec fn view(&self) -> Seq<T> {
        self.internal.items@
    }
}

impl<T> DynamicArray<T> {
    /// The number of items the array has room for.
    pub closed spec fn capacity(&self) -> u32 {
        self.internal.capacity
    }

    /// What every array keeps true: it holds no more items than it has room
    /// for, and it has room for [`MIN_CAPACITY`] items at least.
    pub closed spec fn wf(&self) -> bool {
        self.internal.items@.len() <= self.internal.capacity && MIN_CAPACITY
            <= self.internal.capacity
    }

    /// The minimal capacity an array can have. Its length can still be
    /// zero.
    #[must_use]
    pub fn min_capacity() -> (capacity: u32)
        ensures
            capacity == MIN_CAPACITY,
    {
        MIN_CAPACITY
    }

    /// The maximum capacity and length an array can have.
    #[must_use]
    pub fn max_length() -> (length: u32)
        ensures
            length == max_items(size_of::<T>()),
    {
        let item_size = core::mem::size_of::<T>();
        if item_size == 0 {
            MAX_BYTES as u32
        } else {
            (MAX_BYTES / item_size) as u32
        }
    }

    /// The array that holds `items` with room for `capacity` of them, if the
    /// room was given; the error of a failed allocation, if it was not.
    pub fn from_reservation(
        items: Vec<T>,
        capacity: u32,
        reservation: Result<(), TryReserveError>,
    ) -> (result: Result<Self, DynamicArrayError>)
        requires
            items@.len() <= capacity,
            MIN_CAPACITY <= capacity,
        ensures
            reservation is Ok <==> result is Ok,
            result matches Ok(array) ==> array.wf() && array@ == items@ && array.capacity()
                == capacity,
            result matches Err(error) ==> error == DynamicArrayError::AllocationError,
    {
        match reservation {
            Ok(_) => Ok(Self { internal: InternalArray { items, capacity } }),
            Err(_) => Err(DynamicArrayError::AllocationError),
        }
    }

    /// Creates an empty array with room for `capacity` items.
    ///
    /// # Errors
    /// [`DynamicArrayError::CapacityTooBig`] if `capacity` exceeds
    /// [`Self::max_length()`]; else [`DynamicArrayError::CapacityTooSmall`]
    /// if it is smaller than [`Self::min_capacity()`]; else
    /// [`DynamicArrayError::AllocationError`] if the allocator does not give
    /// the room.
    pub fn with_capacity(capacity: u32) -> (result: Result<Self, DynamicArrayError>)
        ensures
            capacity > max_items(size_of::<T>()) ==> result matches Err(
                DynamicArrayError::CapacityTooBig,
            ),
            capacity <= max_items(size_of::<T>()) && capacity < MIN_CAPACITY ==> result matches Err(
                DynamicArrayError::CapacityTooSmall,
            ),
            MIN_CAPACITY <= capacity <= max_items(size_of::<T>()) ==> match result {
                Ok(array) => array.wf() && array@ == Seq::<T>::empty() && array.capacity()
                    == capacity,
                Err(error) => error == DynamicArrayError::AllocationError,
            },
    {
        if capacity > Self::max_length() {
            return Err(DynamicArrayError::CapacityTooBig);
        }
        if capacity < Self::min_capacity() {
            return Err(DynamicArrayError::CapacityTooSmall);
        }
        let mut items: Vec<T> = Vec::new();
        let reservation = items.try_reserve(capacity as usize);
        Self::from_reservation(items, capacity, reservation)
    }

    /// Creates an empty array with room for [`Self::min_capacity()`] items.
    ///
    /// # Errors
    /// As [`Self::with_capacity`].
    pub fn new() -> (result: Result<Self, DynamicArrayError>)
        ensures
            MIN_CAPACITY > max_items(size_of::<T>()) ==> result matches Err(
                DynamicArrayError::CapacityTooBig,
            ),
            MIN_CAPACITY <= max_items(size_of::<T>()) ==> match result {
                Ok(array) => array.wf() && array@ == Seq::<T>::empty() && array.capacity()
                    == MIN_CAPACITY,
                Err(error) => error == DynamicArrayError::AllocationError,
            },
    {
        Self::with_capacity(Self::min_capacity())
    }

    /// Makes room for one more item: a full array grows to [`grown`] of its
    /// capacity, an array that is not full stays as it is.
    fn resize_if_needed(&mut self) -> (result: Result<(), DynamicArrayError>)
        requires
            old(self).wf(),
        ensures
            final(self).wf(),
            final(self)@ == old(self)@,
            old(self)@.len() < old(self).capacity() ==> result is Ok && final(self).capacity()
                == old(self).capacity(),
            old(self)@.len() == old(self).capacity() && grown(old(self).capacity()) > max_items(
                size_of::<T>(),
            ) ==> result matches Err(DynamicArrayError::CapacityTooBig),
            old(self)@.len() == old(self).capacity() && grown(old(self).capacity()) <= max_items(
                size_of::<T>(),
            ) ==> match result {
                Ok(_) => final(self).capacity() == grown(old(self).capacity()),
                Err(error) => error == DynamicArrayError::AllocationError,
            },
            result is Err ==> final(self).capacity() == old(self).capacity(),
            result is Ok ==> final(self)@.len() < final(self).capacity(),
    {
        if self.internal.items.len() == self.internal.capacity as usize {
            let wanted: u64 = self.internal.capacity as u64 * 8 / 5;
            let new_capacity: u32 = if wanted > u32::MAX as u64 {
                u32::MAX
            } else {
                wanted as u32
            };
            if new_capacity > Self::max_length() {
                return Err(DynamicArrayError::CapacityTooBig);
            }
            let additional = (new_capacity - self.internal.capacity) as usize;
            match self.internal.items.try_reserve(additional) {
                Ok(_) => {
                    self.internal.capacity = new_capacity;
                },
                Err(_) => {
                    return Err(DynamicArrayError::AllocationError);
                },
            }
        }
        Ok(())
    }

    /// Appends `value` to the array. A full array grows first.
    ///
    /// # Errors
    /// [`DynamicArrayError::CapacityTooBig`] if the array is full and would
    /// grow beyond [`Self::max_length()`];
    /// [`DynamicArrayError::AllocationError`] if it is full and the
    /// allocator does not give the room. The array is then left as it was.
    pub fn push(&mut self, value: T) -> (result: Result<(), DynamicArrayError>)
        requires
            old(self).wf(),
        ensures
            final(self).wf(),
            result is Ok ==> final(self)@ == old(self)@.push(value),
            result is Err ==> final(self)@ == old(self)@ && final(self).capacity() == old(
                self,
            ).capacity(),
            old(self)@.len() < old(self).capacity() ==> result is Ok && final(self).capacity()
                == old(self).capacity(),
            old(self)@.len() == old(self).capacity() && grown(old(self).capacity()) > max_items(
                size_of::<T>(),
            ) ==> result matches Err(DynamicArrayError::CapacityTooBig),
            old(self)@.len() == old(self).capacity() && grown(old(self).capacity()) <= max_items(
                size_of::<T>(),
            ) ==> match result {
                Ok(_) => final(self).capacity() == grown(old(self).capacity()),
                Err(error) => error == DynamicArrayError::AllocationError,
            },
    {
        match self.resize_if_needed() {
            Ok(_) => {},
            Err(error) => {
                return Err(error);
            },
        }
        self.internal.items.push(value);
        Ok(())
    }

    /// Takes the last item off the array; `None` if the array is empty.
    #[must_use]
    pub fn pop(&mut self) -> (value: Option<T>)
        requires
            old(self).wf(),
        ensures
            final(self).wf(),
            final(self).capacity() == old(self).capacity(),
            old(self)@.len() == 0 ==> value is None && final(self)@ == old(self)@,
            old(self)@.len() > 0 ==> value == Some(old(self)@.last()) && final(self)@ == old(
                self,
            )@.drop_last(),
    {
        self.internal.items.pop()
    }

    /// The number of items.
    #[must_use]
    pub fn len(&self) -> (len: u32)
        requires
            self.wf(),
        ensures
            len == self@.len(),
            len <= self.capacity(),
    {
        self.internal.items.len() as u32
    }

    /// Whether the array holds no item.
    #[must_use]
    pub fn is_empty(&self) -> (empty: bool)
        ensures
            empty <==> self@.len() == 0,
    {
        self.internal.items.len() == 0
    }

    /// The items as a slice.
    #[must_use]
    pub fn as_slice(&self) -> (slice: &[T])
        ensures
            slice@ == self@,
    {
        self.internal.items.as_slice()
    }

    /// The items as a slice through which they can be changed. What the
    /// slice holds in the end, the array holds, and as long as the slice
    /// keeps its length the array stays well formed.
    #[must_use]
    pub fn as_slice_mut(&mut self) -> (slice: &mut [T])
        ensures
            slice@ == old(self)@,
            final(slice)@ == final(self)@,
            final(self).capacity() == old(self).capacity(),
            old(self).wf() && final(slice)@.len() == slice@.len() ==> final(self).wf(),
    {
        self.internal.items.as_mut_slice()
    }

    /// The array that holds the same items and cannot be changed any more.
    #[must_use]
    pub fn into_array(self) -> (array: Array<T>)
        requires
            self.wf(),
        ensures
            array@ == self@,
    {
        Array::from_dynamic_array(self)
    }

    /// What the array is made of.
    pub(crate) fn into_internal_array(self) -> (internal: InternalArray<T>)
        requires
            self.wf(),
        ensures
            internal.items@ == self@,
            internal.items@.len() <= internal.capacity,
    {
        self.internal
    }
}

impl<T> AsRef<[T]> for DynamicArray<T> {
    fn as_ref(&self) -> (slice: &[T])
        ensures
            slice@ == self@,
    {
        self.as_slice()
    }
}

impl<T> AsMut<[T]> for DynamicArray<T> {
    fn as_mut(&mut self) -> (slice: &mut [T])
        ensures
            slice@ == old(self)@,
            final(slice)@ == final(self)@,
            final(self).capacity() == old(self).capacity(),
            old(self).wf() && final(slice)@.len() == slice@.len() ==> final(self).wf(),
    {
        self.as_slice_mut()
    }
}

} // verus!
