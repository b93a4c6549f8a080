use wikimind::file_tools::{edit_text, read_window};

#[test]
fn edit_replaces_the_first_occurrence() {
    assert_eq!(edit_text("a-b-c", "-", "+", false), Some("a+b-c".to_string()));
    assert_eq!(edit_text("aaa", "aa", "b", false), Some("ba".to_string()));
    assert_eq!(edit_text("x", "", "y", false), Some("yx".to_string()));
}

#[test]
fn edit_replaces_every_occurrence_like_str_replace() {
    assert_eq!(edit_text("a-b-c", "-", "+", true), Some("a+b+c".to_string()));
    assert_eq!(edit_text("aaaa", "aa", "b", true), Some("bb".to_string()));
    assert_eq!(edit_text("aaa", "aa", "b", true), Some("ba".to_string()));
    assert_eq!(edit_text("ab", "", "x", true), Some("ab".replace("", "x")));
    assert_eq!(edit_text("", "", "x", true), Some("x".to_string()));
    assert_eq!(edit_text("héllo wörld", "ö", "o", true), Some("héllo world".to_string()));
}

#[test]
fn edit_of_missing_text_is_refused() {
    assert_eq!(edit_text("abc", "d", "x", false), None);
    assert_eq!(edit_text("abc", "abcd", "x", true), None);
    assert_eq!(edit_text("", "a", "x", true), None);
}

#[test]
fn edits_agree_with_std() {
    let cases = [("one two one", "one", "1"), ("zzz", "z", ""), ("abcabc", "bc", "XY"), ("no", "yes", "maybe")];
    for (text, old, new) in cases {
        if text.contains(old) {
            assert_eq!(edit_text(text, old, new, true), Some(text.replace(old, new)));
            assert_eq!(edit_text(text, old, new, false), Some(text.replacen(old, new, 1)));
        } else {
            assert_eq!(edit_text(text, old, new, true), None);
        }
    }
}

#[test]
fn read_returns_a_window_of_lines() {
    let text = "l0\nl1\nl2\nl3";
    assert_eq!(read_window(text, None, None), text);
    assert_eq!(read_window(text, Some(1), None), "l1\nl2\nl3");
    assert_eq!(read_window(text, Some(1), Some(2)), "l1\nl2\n");
    assert_eq!(read_window(text, Some(3), Some(5)), "l3");
    assert_eq!(read_window(text, Some(4), None), "");
    assert_eq!(read_window(text, Some(u64::MAX), Some(u64::MAX)), "");
    assert_eq!(read_window(text, None, Some(0)), "");
    assert_eq!(read_window("a\n\nb\n", Some(1), Some(1)), "\n");
    assert_eq!(read_window("", None, None), "");
}
