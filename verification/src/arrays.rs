pub mod array;
pub mod dynamic_array;
pub mod internal;

pub use array::Array;
pub use dynamic_array::{AllocationError, DynamicArray, DynamicArrayError};
pub use internal::InternalArray;
