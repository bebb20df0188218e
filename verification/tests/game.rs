use bg3_debug_tool::collections::{MultiHashMap, MultiHashSet};
use bg3_debug_tool::game::{
    contains, search, template_kind, translated_string, ArrayIter, FixedString, GameFunction, GamePtr,
    GameVersionInfo, HookableFunction, Hud, LSStringView, RuntimeStringHandle, TemplateEntry, TemplateKind,
    TextPool, TranslatedString, TranslatedStringRepository, UninitializedStaticArray,
};
use bg3_debug_tool::guid::{guid_from_parsed, guid_parse, CppOption, Guid};
use bg3_debug_tool::hex_dump::hex_dump;

#[test]
fn game_pointers() {
    let p: GamePtr<u32> = GamePtr::new(0x1234);
    assert!(!p.is_null());
    assert_eq!(p.as_usize(), 0x1234);
    assert!(GamePtr::<u8>::null().is_null());
}

#[test]
fn fixed_strings_through_the_getter() {
    let s = FixedString { index: 5, hash: 77 };
    let getter = Some(|f: FixedString| LSStringView { text: format!("entry {}", f.index) });
    assert_eq!(s.get(&getter).unwrap().text, "entry 5");
    assert_eq!(s.as_str(&getter), "entry 5");
    assert!(FixedString::default().is_null());
    assert!(FixedString::default().get(&getter).is_none());
    let none: Option<fn(FixedString) -> LSStringView> = None;
    assert!(s.get(&none).is_none());
}

#[test]
fn arrays_iterate_their_size() {
    let a = UninitializedStaticArray { buf: vec![1, 2, 3, 4], size: 3 };
    assert_eq!(*a.index(2), 3);
    let mut it = a.iter();
    assert_eq!(it.next(), Some(&1));
    assert_eq!(it.next(), Some(&2));
    assert_eq!(it.next(), Some(&3));
    assert_eq!(it.next(), None);
    let mut empty = ArrayIter::new(&[9u8][..], 0);
    assert_eq!(empty.next(), None);
}

#[test]
fn function_slots() {
    let mut f: GameFunction<u32> = GameFunction::new();
    assert!(f.0.is_none());
    f.set(3);
    assert_eq!(*f.get(), 3);
    assert_eq!(*f.get(), 3);
    f.set(4);
    assert_eq!(*f.get(), 4);
    let mut h = HookableFunction::new(10u32);
    assert!(h.original.is_none());
    h.attach(20);
    assert_eq!(*h.original(), 20);
    assert_eq!(h.hook, 10);
}

#[test]
fn game_versions() {
    let v = GameVersionInfo::from_file_version((4 << 16) | 37, (12 << 16) | 3);
    assert_eq!(v, GameVersionInfo { major: 4, minor: 37, revision: 12, build: 3 });
    assert!(v.is_supported());
    assert!(!GameVersionInfo { major: 4, minor: 36, revision: 0, build: 0 }.is_supported());
    assert!(!GameVersionInfo { major: 5, minor: 40, revision: 0, build: 0 }.is_supported());
    assert_eq!(v.to_text(), "v4.37.12.3");
    assert_eq!(GameVersionInfo { major: 0, minor: 0, revision: 65535, build: 10 }.to_text(), "v0.0.65535.10");
}

#[test]
fn template_kinds() {
    assert_eq!(template_kind("item"), TemplateKind::Item);
    assert_eq!(template_kind("scenery"), TemplateKind::Scenery);
    assert_eq!(template_kind("character"), TemplateKind::GameObject);
}

#[test]
fn text_search() {
    assert!(contains("Potion of Healing", "of H"));
    assert!(contains("abc", ""));
    assert!(!contains("abc", "abcd"));
    assert!(!contains("abc", "C"));
    assert!(contains("ééé", "é"));
}

#[test]
fn template_search_keeps_matching_names() {
    let entries = vec![
        TemplateEntry { ptr: 0x10, name: "Sword".to_string() },
        TemplateEntry { ptr: 0, name: "Broken Sword".to_string() },
        TemplateEntry { ptr: 0x30, name: "Shield".to_string() },
        TemplateEntry { ptr: 0x40, name: "Great Sword".to_string() },
    ];
    assert_eq!(search(&entries, "Sword"), vec![0x10, 0x40]);
    let mut hud = Hud::new();
    hud.text = "Sh".to_string();
    hud.search(&entries);
    assert_eq!(hud.search_items, vec![0x30]);
}

fn pool(entries: Vec<(FixedString, &str)>) -> TextPool {
    // One bucket holding every key in a chain.
    let n = entries.len();
    let keys: Vec<FixedString> = entries.iter().map(|e| e.0).collect();
    let values: Vec<LSStringView> = entries.iter().map(|e| LSStringView { text: e.1.to_string() }).collect();
    let next_ids: Vec<i32> = (0..n).map(|i| if i + 1 < n { i as i32 + 1 } else { -1 }).collect();
    let head = if n > 0 { 0 } else { -1 };
    TextPool { texts: MultiHashMap { hash_set: MultiHashSet { hash_keys: vec![head], next_ids, keys }, values } }
}

#[test]
fn translated_strings_fall_back() {
    let a = FixedString { index: 1, hash: 11 };
    let b = FixedString { index: 2, hash: 22 };
    let c = FixedString { index: 3, hash: 33 };
    let repo = TranslatedStringRepository {
        translated_strings: vec![pool(vec![(a, "Hello")])],
        versioned_fallback_pool: pool(vec![(a, "Old hello"), (b, "Bye")]),
        fallback_pool: pool(vec![(c, "Fallback")]),
    };
    assert_eq!(translated_string(Some(&repo), a).unwrap().text, "Hello");
    assert_eq!(translated_string(Some(&repo), b).unwrap().text, "Bye");
    assert_eq!(translated_string(Some(&repo), c).unwrap().text, "Fallback");
    assert!(translated_string(Some(&repo), FixedString { index: 4, hash: 44 }).is_none());
    assert!(translated_string(None, a).is_none());
    let t = TranslatedString {
        handle: RuntimeStringHandle { handle: b, version: 3 },
        argument_string: RuntimeStringHandle { handle: FixedString::default(), version: 0 },
    };
    assert_eq!(t.get(Some(&repo)).unwrap().text, "Bye");
}

#[test]
fn hex_dumps_lines() {
    let lines = hex_dump(b"AB\x00cdef", 3);
    assert_eq!(lines, vec!["41 42 00    AB.".to_string(), "63 64 65    cde".to_string(), "66     f".to_string()]);
    assert!(hex_dump(b"", 4).is_empty());
    assert_eq!(hex_dump(&[0x7F, 0x20, 0xFF, 0x21], 2), vec!["7F 20    ..".to_string(), "FF 21    .!".to_string()]);
}

#[test]
fn guids_swap_bytes() {
    let bytes: [u8; 16] = [0, 1, 2, 3, 4, 5, 6, 7, 8, 9, 10, 11, 12, 13, 14, 15];
    let g = Guid::from_uuid_bytes(bytes);
    assert_eq!(g.0, [3, 2, 1, 0, 5, 4, 7, 6, 9, 8, 11, 10, 13, 12, 15, 14]);
    let o = guid_from_parsed(Some(bytes));
    assert!(o.flag);
    assert_eq!(o.val, g);
    assert!(!guid_from_parsed(None).flag);
}

#[test]
fn guids_parse_from_text() {
    let o = guid_parse("00010203-0405-0607-0809-0a0b0c0d0e0f");
    assert!(o.flag);
    assert_eq!(o.val.0, [3, 2, 1, 0, 5, 4, 7, 6, 9, 8, 11, 10, 13, 12, 15, 14]);
    let simple = guid_parse("000102030405060708090a0b0c0d0e0f");
    assert_eq!(simple.val, o.val);
    assert!(!guid_parse("not a guid").flag);
    assert!(!guid_parse("").flag);
}

#[test]
fn guids_in_every_uuid_text_form() {
    let o = guid_parse("00010203-0405-0607-0809-0a0b0c0d0e0f");
    for text in [
        "00010203-0405-0607-0809-0A0B0C0D0E0F",
        "{00010203-0405-0607-0809-0a0b0c0d0e0f}",
        "urn:uuid:00010203-0405-0607-0809-0a0b0c0d0e0f",
        "URN:UUID:00010203-0405-0607-0809-0a0b0c0d0e0f",
    ] {
        let g = guid_parse(text);
        assert!(g.flag, "{text}");
        assert_eq!(g.val, o.val, "{text}");
    }
    for text in [
        "00010203-0405-0607-0809-0a0b0c0d0e0g",
        "00010203+0405-0607-0809-0a0b0c0d0e0f",
        "[00010203-0405-0607-0809-0a0b0c0d0e0f]",
        "urn:uid:000010203-0405-0607-0809-0a0b0c0d0e0f",
        "000102030405060708090a0b0c0d0e0",
    ] {
        assert!(!guid_parse(text).flag, "{text}");
    }
}

#[test]
fn cpp_options() {
    let some = CppOption::from(Some(5u32));
    assert!(some.flag);
    assert_eq!(some.val, 5);
    let none: CppOption<u32> = CppOption::from(None);
    assert!(!none.flag);
    assert!(matches!(CppOption::from_output(3u8).branch(), Ok(3)));
    match none.branch() {
        Err(r) => assert!(!CppOption::from_residual(r).flag),
        Ok(_) => panic!("unset option gave a value"),
    }
}

#[test]
fn game_pointers_compare_by_address() {
    let a: GamePtr<u32> = GamePtr::new(0x1000);
    let b: GamePtr<u32> = GamePtr::new(0x2000);
    assert!(a == GamePtr::new(0x1000));
    assert!(a != b);
    assert!(a < b);
    assert_eq!(a.cmp(&b), std::cmp::Ordering::Less);
    assert_eq!(b.partial_cmp(&a), Some(std::cmp::Ordering::Greater));
}
