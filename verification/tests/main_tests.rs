#[test]
fn test_new_() {
    assert_eq!(true, true);
}
