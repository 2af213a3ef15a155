use groxide::fixtures::containers::Stack;
use groxide::fixtures::traits::Stringify;

#[test]
fn stringify_negative_i32() {
    assert_eq!((-42i32).stringify(), "-42");
}

#[test]
fn stringify_i32_extremes() {
    assert_eq!(0i32.stringify(), "0");
    assert_eq!(i32::MIN.stringify(), "-2147483648");
    assert_eq!(i32::MAX.stringify(), "2147483647");
}

#[test]
fn debug_string_wraps_stringify() {
    assert_eq!(7i32.debug_string(), "[debug: 7]");
    assert_eq!(String::from("abc").debug_string(), "[debug: abc]");
}

#[test]
fn stack_len_after_pushes_and_pops() {
    let mut s: Stack<i32> = Stack::new();
    s.push(1);
    s.push(2);
    s.push(3);
    assert_eq!(s.pop(), Some(3));
    assert_eq!(s.len(), 2);
    assert_eq!(s.pop(), Some(2));
    assert_eq!(s.pop(), Some(1));
    assert_eq!(s.pop(), None);
    assert_eq!(s.len(), 0);
    assert!(s.is_empty());
}
