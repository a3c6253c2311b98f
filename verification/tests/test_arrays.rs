use std::sync::{Arc, Mutex};

use osom_x64::arrays::{DynamicArray, DynamicArrayError};
use rand::{Rng, RngCore};

#[test]
fn test_array() -> Result<(), DynamicArrayError> {
    let mut array = DynamicArray::<i32>::new()?;
    assert_eq!(array.len(), 0);
    assert_eq!(array.as_slice(), &[]);
    array.push(0)?;
    assert_eq!(array.len(), 1);
    assert_eq!(array.as_slice(), &[0]);
    array.push(1)?;
    assert_eq!(array.len(), 2);
    assert_eq!(array.as_slice(), &[0, 1]);
    array.push(-1)?;
    assert_eq!(array.len(), 3);
    assert_eq!(array.as_slice(), &[0, 1, -1]);
    array.push(14)?;
    assert_eq!(array.len(), 4);
    assert_eq!(array.as_slice(), &[0, 1, -1, 14]);
    Ok(())
}

#[test]
fn test_array_2() -> Result<(), DynamicArrayError> {
    let mut array = DynamicArray::<i32>::new()?;
    let mut vec = Vec::<i32>::new();
    for idx in 0..1024 {
        array.push(idx)?;
        vec.push(idx);
    }

    assert_eq!(array.len() as usize, vec.len());
    assert_eq!(array.as_slice(), vec.as_slice());

    assert_eq!(array.pop().unwrap(), 1023);
    assert_eq!(array.pop().unwrap(), 1022);
    assert_eq!(array.pop().unwrap(), 1021);
    vec.pop();
    vec.pop();
    vec.pop();
    assert_eq!(array.len() as usize, vec.len());
    assert_eq!(array.as_slice(), vec.as_slice());
    Ok(())
}

#[test]
fn test_array_drop() {
    struct Foo {
        idx: i32,
        array: Arc<Mutex<Vec<i32>>>,
    }

    impl Drop for Foo {
        fn drop(&mut self) {
            let mut vec = self.array.lock().unwrap();
            vec.push(self.idx);
        }
    }

    let arc_vec = Arc::new(Mutex::new(Vec::<i32>::new()));
    let mut dyn_array = DynamicArray::new().unwrap();
    let mut expected = Vec::new();
    for idx in 0..1024 {
        let value = (idx * 2 + 7) % 13;
        dyn_array
            .push(Foo {
                idx: value,
                array: arc_vec.clone(),
            })
            .unwrap();
        expected.push(value);
    }

    let last_idx = -1;
    dyn_array
        .push(Foo {
            idx: last_idx,
            array: arc_vec.clone(),
        })
        .unwrap();

    {
        let vec = arc_vec.lock().unwrap();
        assert_eq!(vec.as_slice(), &[]);
    }

    let last = dyn_array.pop().unwrap();
    assert_eq!(last.idx, last_idx);

    drop(dyn_array);

    {
        let vec = arc_vec.lock().unwrap();
        assert_eq!(vec.as_slice(), expected.as_slice());
    }

    drop(last);
    expected.push(last_idx);

    {
        let vec = arc_vec.lock().unwrap();
        assert_eq!(vec.as_slice(), expected.as_slice());
    }
}

#[test]
fn test_dyn_array_to_array() {
    let mut dyn_array = DynamicArray::<i32>::new().unwrap();
    let mut vec = Vec::<i32>::new();
    for idx in 0..5000 {
        dyn_array.push(idx).unwrap();
        vec.push(idx);
    }

    assert_eq!(dyn_array.len() as usize, vec.len());
    assert_eq!(dyn_array.as_slice(), vec.as_slice());

    let array = dyn_array.into_array();
    assert_eq!(array.len() as usize, vec.len());
    assert_eq!(array.as_slice(), vec.as_slice());
}

#[test]
fn test_rand_array() {
    for _ in 0..10 {
        let mut rng = rand::thread_rng();
        let start = rng.gen_range(10000..20000) as u32;
        let end = rng.gen_range(0..5000) + 15000 as u32;

        let mut dyn_array = DynamicArray::new().unwrap();
        let mut expected = Vec::new();
        for _ in start..end {
            let value = rng.next_u64();
            dyn_array.push(value).unwrap();
            expected.push(value);
        }

        assert_eq!(dyn_array.as_slice(), expected.as_slice());
        let arr = dyn_array.into_array();
        assert_eq!(arr.as_slice(), expected.as_slice());
    }
}

#[test]
fn capacity_has_bounds() {
    assert_eq!(DynamicArray::<i32>::min_capacity(), 32);
    assert_eq!(DynamicArray::<i32>::max_length(), 0x7fff_ffff / 4);
    assert_eq!(DynamicArray::<u8>::max_length(), 0x7fff_ffff);
    assert!(matches!(
        DynamicArray::<i32>::with_capacity(31),
        Err(DynamicArrayError::CapacityTooSmall)
    ));
    assert!(matches!(
        DynamicArray::<i32>::with_capacity(0x7fff_ffff / 4 + 1),
        Err(DynamicArrayError::CapacityTooBig)
    ));
    assert!(matches!(
        DynamicArray::<[u8; 0x1000_0000]>::with_capacity(32),
        Err(DynamicArrayError::CapacityTooBig)
    ));
    let array = DynamicArray::<i32>::with_capacity(100).unwrap();
    assert!(array.is_empty());
    assert_eq!(array.len(), 0);
}

#[test]
fn pop_of_an_empty_array_is_none() {
    let mut array = DynamicArray::<u8>::new().unwrap();
    assert_eq!(array.pop(), None);
    array.push(3).unwrap();
    assert!(!array.is_empty());
    assert_eq!(array.pop(), Some(3));
    assert_eq!(array.pop(), None);
    let array = array.into_array();
    assert!(array.is_empty());
    assert_eq!(array.len(), 0);
}

#[test]
fn allocation_error_becomes_an_array_error() {
    assert_eq!(
        DynamicArrayError::from(osom_x64::arrays::AllocationError),
        DynamicArrayError::AllocationError
    );
}

#[test]
fn items_can_be_changed_through_the_slice() {
    let mut array = DynamicArray::<i32>::new().unwrap();
    for idx in 0..5 {
        array.push(idx).unwrap();
    }
    for item in array.as_slice_mut() {
        *item *= 2;
    }
    assert_eq!(array.as_slice(), &[0, 2, 4, 6, 8]);
    assert_eq!(array.len(), 5);
}

#[test]
fn a_full_array_grows_by_eight_fifths() {
    let mut array = DynamicArray::<u8>::with_capacity(40).unwrap();
    for idx in 0..200u8 {
        array.push(idx).unwrap();
    }
    let expected: Vec<u8> = (0..200).collect();
    assert_eq!(array.as_slice(), expected.as_slice());
}

#[test]
fn items_that_take_no_room() {
    assert_eq!(DynamicArray::<()>::max_length(), 0x7fff_ffff);
    let mut array = DynamicArray::<()>::new().unwrap();
    for _ in 0..100 {
        array.push(()).unwrap();
    }
    assert_eq!(array.len(), 100);
    assert_eq!(array.pop(), Some(()));
    assert_eq!(array.len(), 99);
}

#[test]
fn arrays_lend_their_items_as_slices() {
    let mut array = DynamicArray::<u8>::new().unwrap();
    array.push(1).unwrap();
    array.push(2).unwrap();
    let shared: &[u8] = array.as_ref();
    assert_eq!(shared, &[1, 2]);
    let exclusive: &mut [u8] = array.as_mut();
    exclusive[0] = 7;
    assert_eq!(array.as_slice(), &[7, 2]);
    let array = array.into_array();
    let shared: &[u8] = array.as_ref();
    assert_eq!(shared, &[7, 2]);
}
