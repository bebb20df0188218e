use bg3_debug_tool::pattern::{hex_to_u8, Pattern, PatternByte, PatternError};

fn pb(value: u8, mask: u8) -> PatternByte {
    PatternByte { value, mask }
}

#[test]
fn pattern_parses_exact_and_wildcard_bytes() {
    let p = Pattern::try_from("48 8B ?? 05").unwrap();
    assert_eq!(p.bytes, vec![pb(0x48, 0xFF), pb(0x8B, 0xFF), pb(0, 0), pb(0x05, 0xFF)]);
    assert!(p.anchors.is_empty());
}

#[test]
fn pattern_records_anchor_positions() {
    let p = Pattern::try_from("48 @start 8B 0d @end").unwrap();
    assert_eq!(p.bytes, vec![pb(0x48, 0xFF), pb(0x8B, 0xFF), pb(0x0D, 0xFF)]);
    assert_eq!(p.anchors, vec![("@start".to_string(), 1), ("@end".to_string(), 3)]);
}

#[test]
fn pattern_skips_comments_and_line_breaks() {
    let p = Pattern::try_from("48 // a comment ?? zz\r\n\t8B").unwrap();
    assert_eq!(p.bytes, vec![pb(0x48, 0xFF), pb(0x8B, 0xFF)]);
}

#[test]
fn pattern_rejects_single_character_byte() {
    assert_eq!(Pattern::try_from("48 4").unwrap_err(), PatternError::ByteTooShort);
}

#[test]
fn pattern_rejects_unseparated_bytes() {
    assert_eq!(Pattern::try_from("488B").unwrap_err(), PatternError::BytesNotSeparated);
}

#[test]
fn pattern_rejects_bad_hex() {
    assert_eq!(Pattern::try_from("48 G1").unwrap_err(), PatternError::InvalidHex('G', '1'));
    assert_eq!(Pattern::try_from("?1").unwrap_err(), PatternError::InvalidHex('?', '1'));
}

#[test]
fn pattern_rejects_empty_and_wildcard_start() {
    assert_eq!(Pattern::try_from("  // nothing").unwrap_err(), PatternError::Empty);
    assert_eq!(Pattern::try_from("?? 48").unwrap_err(), PatternError::FirstByteNotExact);
}

#[test]
fn hex_pairs_read_both_cases() {
    assert_eq!(hex_to_u8('a', 'F'), Some(0xAF));
    assert_eq!(hex_to_u8('0', '9'), Some(0x09));
    assert_eq!(hex_to_u8('g', '0'), None);
}

#[test]
fn pattern_matches_prefix_of_memory() {
    let p = Pattern::try_from("48 ?? 05").unwrap();
    assert!(p.match_pattern(&[0x48, 0x99, 0x05, 0x11]));
    assert!(!p.match_pattern(&[0x48, 0x99, 0x06]));
    assert!(p.match_pattern(&[0x48]));
}

fn first(r: Option<(usize, ())>) -> Option<usize> {
    r.map(|(w, _)| w)
}

fn take(_: usize) -> Option<()> {
    Some(())
}

#[test]
fn scan_finds_first_full_match() {
    let p = Pattern::try_from("48 8B ?? 05").unwrap();
    let mem = [0x00, 0x48, 0x8B, 0x01, 0x06, 0x48, 0x8B, 0x02, 0x05, 0x48, 0x8B, 0x03, 0x05];
    assert_eq!(first(p.scan(&mem, take)), Some(5));
    assert_eq!(first(p.scan_prefix_1(&mem, take)), Some(5));
    assert_eq!(first(p.scan_prefix_2(&mem, take)), Some(5));
}

#[test]
fn scan_with_long_exact_prefix() {
    let p = Pattern::try_from("01 02 03 04 ?? 06").unwrap();
    let mem = [9, 1, 2, 3, 4, 5, 7, 1, 2, 3, 4, 0, 6];
    assert_eq!(first(p.scan(&mem, take)), Some(7));
    assert_eq!(first(p.scan_prefix_4(&mem, take)), Some(7));
}

#[test]
fn scan_reports_absence() {
    let p = Pattern::try_from("AA BB").unwrap();
    assert_eq!(first(p.scan(&[0xAA, 0xBC, 0xBB], take)), None);
    assert_eq!(first(p.scan(&[0xAA], take)), None);
}

#[test]
fn scan_offers_each_window_until_an_answer() {
    let p = Pattern::try_from("48 ?? 05").unwrap();
    let mem = [0x48u8, 0x01, 0x05, 0x48, 0x02, 0x05, 0x00];
    let seen = std::cell::RefCell::new(Vec::new());
    let declined: Option<(usize, ())> = p.scan(&mem, |w| {
        seen.borrow_mut().push(mem[w..w + 3].to_vec());
        None
    });
    assert!(declined.is_none());
    assert_eq!(*seen.borrow(), vec![vec![0x48, 0x01, 0x05], vec![0x48, 0x02, 0x05]]);
    seen.borrow_mut().clear();
    let taken = p.scan(&mem, |w| {
        seen.borrow_mut().push(mem[w..w + 3].to_vec());
        Some(())
    });
    assert_eq!(taken, Some((0, ())));
    assert_eq!(*seen.borrow(), vec![vec![0x48, 0x01, 0x05]]);

    // the keyed variants offer the same windows
    let q = Pattern::try_from("48 02 05").unwrap();
    seen.borrow_mut().clear();
    let _ = q.scan_prefix_2(&mem, |w| -> Option<()> {
        seen.borrow_mut().push(mem[w..w + 3].to_vec());
        None
    });
    assert_eq!(*seen.borrow(), vec![vec![0x48, 0x02, 0x05]]);
    seen.borrow_mut().clear();
    let _ = q.scan_prefix_1(&mem, |w| -> Option<()> {
        seen.borrow_mut().push(mem[w..w + 3].to_vec());
        None
    });
    assert_eq!(*seen.borrow(), vec![vec![0x48, 0x02, 0x05]]);
}

#[test]
fn scan_leaves_short_memory_unoffered() {
    let p = Pattern::try_from("48 ?? 05").unwrap();
    let calls = std::cell::Cell::new(0);
    let r: Option<(usize, ())> = p.scan(&[0x48, 0x00], |_| {
        calls.set(calls.get() + 1);
        None
    });
    assert!(r.is_none());
    assert_eq!(calls.get(), 0);
}

#[test]
fn anchors_found_by_name() {
    let p = Pattern::try_from("48 @a 8B @b 05 @a").unwrap();
    assert_eq!(p.find_anchor("@a"), Some(&("@a".to_string(), 1)));
    assert_eq!(p.find_anchor("@b"), Some(&("@b".to_string(), 2)));
    assert_eq!(p.find_anchor("@c"), None);
}

#[test]
fn pattern_bytes_as_text() {
    let p = Pattern::try_from("48 8b ?? 05").unwrap();
    let texts: Vec<String> = p.bytes.iter().map(|b| b.text()).collect();
    assert_eq!(texts, vec!["48", "8B", "??", "05"]);
    assert_eq!(pb(0xA5, 0xF0).text(), "A?");
    assert_eq!(pb(0xA5, 0x0F).text(), "?5");
    assert_eq!(pb(0xA5, 0x3C).text(), "??");
    let again = Pattern::try_from(texts.join(" ").as_str()).unwrap();
    assert_eq!(again.bytes, p.bytes);
}

#[test]
fn scans_offer_every_match_in_order() {
    let p = Pattern::try_from("48 ?? 05").unwrap();
    let mem = [0x48u8, 0x01, 0x05, 0x48, 0x02, 0x05, 0x00];
    assert_eq!(p.scan_all(&mem), vec![0, 3]);
    let seen = std::cell::RefCell::new(Vec::new());
    let none: Option<(usize, ())> = p.scan_with(&mem, |w| {
        seen.borrow_mut().push(w);
        None
    });
    assert!(none.is_none());
    assert_eq!(*seen.borrow(), vec![0, 3]);
    seen.borrow_mut().clear();
    let first = p.scan_with(&mem, |w| {
        seen.borrow_mut().push(w);
        Some(w * 10)
    });
    assert_eq!(first, Some((0, 0)));
    assert_eq!(*seen.borrow(), vec![0]);
}
