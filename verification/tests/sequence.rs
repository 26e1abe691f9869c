use cel_rs::raw_sequence::RawSequence;

#[test]
fn test_sequence_operations() {
    let mut seq = RawSequence::new();

    seq.push(100u32.to_le_bytes().to_vec(), 4);
    seq.push(200u32.to_le_bytes().to_vec(), 4);
    seq.push(42.0f64.to_le_bytes().to_vec(), 8);
    seq.push("Hello, world!".as_bytes().to_vec(), 1);

    let (value, p) = seq.next(0, 4, 4);
    assert_eq!(u32::from_le_bytes(value.try_into().unwrap()), 100);
    let (value, p) = seq.next(p, 4, 4);
    assert_eq!(u32::from_le_bytes(value.try_into().unwrap()), 200);
    let (value, p) = seq.next(p, 8, 8);
    assert_eq!(f64::from_le_bytes(value.try_into().unwrap()), 42.0);
    let (value, _) = seq.next(p, 13, 1);
    assert_eq!(std::str::from_utf8(&value).unwrap(), "Hello, world!");

    let p = seq.drop_in_place(0, 4, 4);
    let p = seq.drop_in_place(p, 4, 4);
    let p = seq.drop_in_place(p, 8, 8);
    let _ = seq.drop_in_place(p, 13, 1);
}

#[test]
fn sequence_len_reports_alignment_gaps() {
    let mut seq = RawSequence::new();
    assert!(seq.is_empty());
    seq.push(vec![1u8], 1);
    seq.push(7u64.to_le_bytes().to_vec(), 8);
    assert_eq!(seq.len(), 16);
    assert!(!seq.is_empty());
}
