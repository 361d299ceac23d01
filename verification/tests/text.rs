use mouse_sensitivity::text::{
    chars_of, concat3, contains_chars, decimal, hex, join, lowercase_contains,
    lowercase_each, parse_index, positions_containing, same_text, to_lowercase,
};

#[test]
fn numerals() {
    assert_eq!(decimal(0), "0");
    assert_eq!(decimal(1234567890), "1234567890");
    assert_eq!(decimal(u64::MAX), u64::MAX.to_string());
    assert_eq!(hex(0x2A, 2), "2A");
    assert_eq!(hex(0x5, 2), "05");
    assert_eq!(hex(0xE00002E2, 8), "E00002E2");
    assert_eq!(hex(0x12345, 4), "12345");
    assert_eq!(hex(0, 0), "0");
    assert_eq!(hex(u64::MAX, 4), format!("{:04X}", u64::MAX));
}

#[test]
fn text_pieces() {
    assert_eq!(concat3("a", "b", "c"), "abc");
    assert_eq!(join(&vec!["x".to_string(), "y".to_string(), "z".to_string()], ", "), "x, y, z");
    assert_eq!(join(&vec![], ", "), "");
    assert_eq!(chars_of("añb"), vec!['a', 'ñ', 'b']);
    assert!(same_text("SPI", "SPI"));
    assert!(!same_text("SPI", "SP"));
}

#[test]
fn case_insensitive_search() {
    assert_eq!(to_lowercase("MX Master"), "mx master");
    assert!(lowercase_contains("Magic TRACKPAD", "trackpad"));
    assert!(!lowercase_contains("Magic TRACKPAD", "TRACKPAD"));
    assert!(contains_chars(&vec!['a', 'b', 'c'], &vec!['b', 'c']));
    assert!(!contains_chars(&vec!['a', 'b', 'c'], &vec!['c', 'b']));
}

#[test]
fn indices_read_like_usize_parse() {
    for s in ["0", "12", "+3", "007", "", "+", "-1", " 1", "1a", "18446744073709551615", "18446744073709551616"] {
        assert_eq!(parse_index(s), s.parse::<usize>().ok(), "{s:?}");
    }
}

#[test]
fn positions_of_texts_containing_a_needle() {
    let hays: Vec<Vec<char>> = ["razer viper", "mx master", "viper mini", ""].iter().map(|s| s.chars().collect()).collect();
    assert_eq!(positions_containing(&hays, &"viper".chars().collect()), vec![0, 2]);
    assert_eq!(positions_containing(&hays, &"Viper".chars().collect()), Vec::<usize>::new());
    assert_eq!(positions_containing(&hays, &Vec::new()), vec![0, 1, 2, 3]);
    assert_eq!(positions_containing(&Vec::new(), &"x".chars().collect()), Vec::<usize>::new());
}

#[test]
fn lowercase_each_lower_cases_every_text() {
    let v = lowercase_each(&vec!["MX Master", "", "ÄB"]);
    assert_eq!(v, vec!["mx master".chars().collect::<Vec<char>>(), vec![], "äb".chars().collect()]);
}
