use bg3_debug_tool::cpp::{STDString, STDStringOwned};

#[test]
fn short_strings_are_inline() {
    let s = STDStringOwned::from_bytes(b"hello").string;
    assert_eq!(s.size, 5);
    assert_eq!(s.capacity, 15);
    assert_eq!(s.buf.len(), 16);
    assert!(!s.is_large_mode());
    assert_eq!(s.c_str(), b"hello");
    assert_eq!(s.as_str(), "hello");
}

#[test]
fn long_strings_are_on_the_heap() {
    let text = b"a string of twenty-six b";
    let s = STDStringOwned::from_bytes(text).string;
    assert_eq!(s.size as usize, text.len());
    assert_eq!(s.capacity as usize, text.len());
    assert!(s.is_large_mode());
    assert_eq!(s.buf.len(), text.len() + 1);
    assert_eq!(s.as_str(), "a string of twenty-six b");
}

#[test]
fn strings_compare_by_their_c_text() {
    let a = STDStringOwned::from_bytes(b"abc").string;
    let b = STDString { buf: b"abc\0junk".to_vec(), size: 3, capacity: 15 };
    let c = STDStringOwned::from_bytes(b"abd").string;
    assert!(a.same_c_str(&b));
    assert!(!a.same_c_str(&c));
    assert!(a.c_str_before(&c));
    assert!(!c.c_str_before(&a));
    assert!(!a.c_str_before(&b));
    let ab = STDStringOwned::from_bytes(b"ab").string;
    assert!(ab.c_str_before(&a));
}
