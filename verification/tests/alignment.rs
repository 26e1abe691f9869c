use cel_rs::memory::align_index;

#[test]
fn test_align_index() {
    assert_eq!(align_index(16, 0), 0);
    assert_eq!(align_index(16, 1), 16);
    assert_eq!(align_index(16, 15), 16);
    assert_eq!(align_index(16, 16), 16);
    assert_eq!(align_index(16, 17), 32);
}
