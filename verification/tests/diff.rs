use wikimind::diff::{generate_diff, render_changes, ChangeKind, LineChange};

#[test]
fn generates_insert_diff() {
    let old_text = "";
    let new_text = "added\n";

    assert_eq!(generate_diff(old_text, new_text), "+added\n");
}

#[test]
fn generates_delete_diff() {
    let old_text = "removed\n";
    let new_text = "";

    assert_eq!(generate_diff(old_text, new_text), "-removed\n");
}

#[test]
fn generates_replace_diff() {
    let old_text = "before\n";
    let new_text = "after\n";

    assert_eq!(generate_diff(old_text, new_text), "-before\n+after\n");
}

#[test]
fn preserves_newline_and_equal_line_formatting() {
    let old_text = "same\nold";
    let new_text = "same\nnew";

    assert_eq!(generate_diff(old_text, new_text), " same\n-old+new");
}

#[test]
fn identical_texts_give_only_kept_lines() {
    assert_eq!(generate_diff("a\nb\n", "a\nb\n"), " a\n b\n");
}

#[test]
fn diff_sides_restore_both_texts() {
    let old_text = "one\ntwo\nthree\n";
    let new_text = "one\n2\nthree\nfour";
    let d = generate_diff(old_text, new_text);
    let mut old_side = String::new();
    let mut new_side = String::new();
    for line in d.split_inclusive('\n') {
        let (sign, rest) = line.split_at(1);
        if sign != "+" {
            old_side.push_str(rest);
        }
        if sign != "-" {
            new_side.push_str(rest);
        }
    }
    assert_eq!(old_side, old_text);
    assert_eq!(new_side, new_text);
}

#[test]
fn render_writes_sign_then_line() {
    let changes = vec![
        LineChange { kind: ChangeKind::Equal, text: "k\n".to_string() },
        LineChange { kind: ChangeKind::Delete, text: "d\n".to_string() },
        LineChange { kind: ChangeKind::Insert, text: "i".to_string() },
    ];
    assert_eq!(render_changes(&changes), " k\n-d\n+i");
}

#[test]
fn diff_changes_are_single_lines() {
    assert_eq!(generate_diff("a\r\nb\rc", "a\r\nb\rc"), " a\r\n b\r c");
    assert_eq!(generate_diff("x\ry", "x\rz\n"), " x\r-y+z\n");
    let text = "one\ntwo\n\nfour";
    let d = generate_diff(text, text);
    assert!(d.split_inclusive('\n').all(|line| line.starts_with(' ')));
}
