use cel_rs::raw_vec::RawVec;
use std::mem::align_of;

#[test]
fn with_base_alignment() {
    let vec = RawVec::with_base_alignment(align_of::<u32>());
    assert_eq!(vec.capacity(), 0);
    assert_eq!(vec.len(), 0);
}

#[test]
fn with_base_alignment_and_capacity() {
    let vec = RawVec::with_base_alignment_and_capacity(align_of::<u32>(), 10);
    assert!(vec.capacity() >= 10);
    assert_eq!(vec.len(), 0);
    assert_eq!(vec.base_alignment(), align_of::<u32>());
}

#[test]
fn reserve() {
    let mut vec = RawVec::with_base_alignment(align_of::<u32>());
    vec.reserve(10);
    assert!(vec.capacity() >= 10);
    assert_eq!(vec.len(), 0);
    assert_eq!(vec.base_alignment(), align_of::<u32>());
}

#[test]
fn set_len() {
    let mut vec = RawVec::with_base_alignment_and_capacity(align_of::<u32>(), 10);
    vec.set_len(10);
    assert_eq!(vec.len(), 10);
    assert_eq!(vec.base_alignment(), align_of::<u32>());
}

#[test]
fn raw_vec_index() {
    let mut vec = RawVec::with_base_alignment_and_capacity(align_of::<u32>(), 10);
    vec.set_len(1);
    vec.set_byte(0, 42);
    assert_eq!(vec.get_byte(0), 42);
}

#[test]
fn truncate_keeps_prefix() {
    let mut vec = RawVec::with_base_alignment_and_capacity(1, 4);
    vec.set_len(4);
    vec.set_byte(0, 7);
    vec.set_byte(3, 9);
    vec.truncate(2);
    assert_eq!(vec.len(), 2);
    assert_eq!(vec.get_byte(0), 7);
    vec.truncate(5);
    assert_eq!(vec.len(), 2);
}
