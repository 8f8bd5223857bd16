use wechsel_wallpaper::ledger::forget;
use wechsel_wallpaper::ledger::list_all;
use wechsel_wallpaper::ledger::record_installed;

#[test]
fn forget_is_exact_substring_removal_not_line_removal() {
    let content = b"alpha\nbeta\n".to_vec();
    let r = forget(&content, &b"beta".to_vec());
    assert_eq!(r, b"alpha\n\n".to_vec());
}

#[test]
fn forget_removes_only_the_first_occurrence() {
    let content = b"x\nyx\nx\n".to_vec();
    let r = forget(&content, &b"x".to_vec());
    assert_eq!(r, b"\nyx\nx\n".to_vec());
}

#[test]
fn forget_of_absent_name_changes_nothing() {
    let content = b"alpha\n".to_vec();
    let r = forget(&content, &b"beta".to_vec());
    assert_eq!(r, b"alpha\n".to_vec());
}

#[test]
fn record_appends_a_line() {
    let mut content = b"alpha\n".to_vec();
    record_installed(&mut content, &b"beta".to_vec());
    assert_eq!(content, b"alpha\nbeta\n".to_vec());
}

#[test]
fn record_creates_the_first_line() {
    let mut content = Vec::new();
    record_installed(&mut content, &b"alpha".to_vec());
    assert_eq!(content, b"alpha\n".to_vec());
}

#[test]
fn list_all_skips_empty_lines() {
    let content = b"alpha\n\nbeta\n".to_vec();
    let names = list_all(&content);
    assert_eq!(names, vec![b"alpha".to_vec(), b"beta".to_vec()]);
}

#[test]
fn list_all_counts_a_trailing_line_without_newline() {
    let content = b"alpha\nbeta".to_vec();
    let names = list_all(&content);
    assert_eq!(names, vec![b"alpha".to_vec(), b"beta".to_vec()]);
}

#[test]
fn list_all_of_empty_content_is_empty() {
    let content = Vec::new();
    let names = list_all(&content);
    assert!(names.is_empty());
    let only_newlines = b"\n\n\n".to_vec();
    assert!(list_all(&only_newlines).is_empty());
}

#[test]
fn list_all_keeps_duplicates_and_order() {
    let content = b"b\na\nb\n".to_vec();
    let names = list_all(&content);
    assert_eq!(names, vec![b"b".to_vec(), b"a".to_vec(), b"b".to_vec()]);
}
