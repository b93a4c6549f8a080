use wikimind::paths::{path_components, path_file_name, path_join, relative_path_components};
use wikimind::text::{decimal_string, lower_hex_string, split_string, text_ends_with, text_equals, trim_string};

#[test]
fn decimal_and_hex_digits() {
    assert_eq!(decimal_string(0), "0");
    assert_eq!(decimal_string(7), "7");
    assert_eq!(decimal_string(1234567890), "1234567890");
    assert_eq!(decimal_string(u64::MAX), u64::MAX.to_string());
    assert_eq!(lower_hex_string(0), "0");
    assert_eq!(lower_hex_string(255), "ff");
    assert_eq!(lower_hex_string(0xdead_beef), "deadbeef");
    assert_eq!(lower_hex_string(u64::MAX), format!("{:x}", u64::MAX));
}

#[test]
fn trims_unicode_whitespace() {
    assert_eq!(trim_string("  a b \t\r\n"), "a b");
    assert_eq!(trim_string("\u{3000}x\u{a0}"), "x");
    assert_eq!(trim_string(" \n "), "");
    assert_eq!(trim_string(""), "");
    for s in ["\u{2000}mid\u{200a}", "\u{85}q", "plain"] {
        assert_eq!(trim_string(s), s.trim());
    }
}

#[test]
fn splits_at_every_separator() {
    assert_eq!(split_string("a\nb\n", '\n'), vec!["a", "b", ""]);
    assert_eq!(split_string("", '\n'), vec![""]);
    assert_eq!(split_string("//x", '/'), vec!["", "", "x"]);
}

#[test]
fn compares_texts() {
    assert!(text_equals("技术风格", "技术风格"));
    assert!(!text_equals("ab", "abc"));
    assert!(text_ends_with("page.md", ".md"));
    assert!(!text_ends_with("md", ".md"));
}

#[test]
fn components_follow_std_path() {
    for p in ["", "/", "a", "./a/b", "a/./b/", "//x//y", "../up", ".", "a/..", "/a/b/c.md"] {
        let expected: Vec<String> = std::path::Path::new(p)
            .components()
            .map(|c| c.as_os_str().to_string_lossy().into_owned())
            .collect();
        assert_eq!(path_components(p), expected, "components of {:?}", p);
    }
}

#[test]
fn file_name_and_join_follow_std_path() {
    for p in ["a/b.md", "a/..", "/", "", "x/.", "name"] {
        let expected = std::path::Path::new(p).file_name().map(|n| n.to_string_lossy().into_owned());
        assert_eq!(path_file_name(p), expected, "file name of {:?}", p);
    }
    for (a, b) in [("a", "b"), ("a/", "b"), ("", "b"), ("a", "/abs"), ("a", "")] {
        let expected = std::path::Path::new(a).join(b).to_string_lossy().into_owned();
        assert_eq!(path_join(a, b), expected, "{:?} joined with {:?}", a, b);
    }
}

#[test]
fn relative_components_strip_the_root() {
    assert_eq!(relative_path_components("/w", "/w/x/y.md"), vec!["x", "y.md"]);
    assert_eq!(relative_path_components("/w", "/other/y.md"), vec!["/", "other", "y.md"]);
    assert_eq!(relative_path_components("", "a/b"), vec!["a", "b"]);
}
