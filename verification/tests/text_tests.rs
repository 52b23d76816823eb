use heaven::text::{chars_of, decimal_string, replace_all, same_text};

#[test]
fn chars_of_keeps_order() {
    assert_eq!(chars_of("a名b"), vec!['a', '名', 'b']);
    assert_eq!(chars_of(""), Vec::<char>::new());
}

#[test]
fn replace_all_replaces_every_occurrence() {
    assert_eq!(replace_all("a{target}b{target}", "{target}", "web"), "awebbweb");
    assert_eq!(replace_all("no placeholder", "{target}", "web"), "no placeholder");
    assert_eq!(replace_all("", "{target}", "web"), "");
}

#[test]
fn replace_all_scans_left_to_right_without_overlap() {
    assert_eq!(replace_all("aaa", "aa", "b"), "ba");
    assert_eq!(replace_all("aaaa", "aa", "b"), "bb");
    // replaced text is not scanned again
    assert_eq!(replace_all("xab", "ab", "ab"), "xab");
    assert_eq!(replace_all("{{name}}", "{{name}}", "{{name}}{{name}}"), "{{name}}{{name}}");
}

#[test]
fn replace_all_agrees_with_std_replace() {
    let cases = [
        ("target/app/{target}", "{target}", "node"),
        ("{target}{target}{target}", "{target}", ""),
        ("abcabcab", "cab", "X"),
        ("ééé", "é", "e"),
    ];
    for (s, pat, to) in cases {
        assert_eq!(replace_all(s, pat, to), s.replace(pat, to));
    }
}

#[test]
fn same_text_compares_characters() {
    assert!(same_text("web", "web"));
    assert!(!same_text("web", "Web"));
    assert!(!same_text("web", "webs"));
    assert!(same_text("", ""));
}

#[test]
fn decimal_string_writes_numbers() {
    assert_eq!(decimal_string(0), "0");
    assert_eq!(decimal_string(7), "7");
    assert_eq!(decimal_string(10), "10");
    assert_eq!(decimal_string(4000), "4000");
    assert_eq!(decimal_string(u32::MAX), "4294967295");
}
