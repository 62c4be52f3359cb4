use eos::utils::divrem_i32;

#[test]
fn test_divrem() {
    assert_eq!(divrem_i32(-23, 12), (-1, -11));
    assert_eq!(divrem_i32(27, 12), (2, 3));
    assert_eq!(divrem_i32(23, -12), (-1, 11));
}
