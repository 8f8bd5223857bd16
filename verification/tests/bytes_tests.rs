use wechsel_wallpaper::bytes::bytes_eq;
use wechsel_wallpaper::bytes::find_first;
use wechsel_wallpaper::bytes::remove_first;

#[test]
fn find_first_reports_the_leftmost_occurrence() {
    assert_eq!(find_first(&b"abcabc".to_vec(), &b"bc".to_vec()), Some(1));
    assert_eq!(find_first(&b"abcabc".to_vec(), &b"abc".to_vec()), Some(0));
    assert_eq!(find_first(&b"abc".to_vec(), &b"x".to_vec()), None);
    assert_eq!(find_first(&b"ab".to_vec(), &b"abc".to_vec()), None);
}

#[test]
fn find_first_of_empty_needle_is_the_start() {
    assert_eq!(find_first(&b"abc".to_vec(), &Vec::new()), Some(0));
    assert_eq!(find_first(&Vec::new(), &Vec::new()), Some(0));
}

#[test]
fn remove_first_cuts_one_occurrence() {
    assert_eq!(remove_first(&b"pre BLOCK post".to_vec(), &b"BLOCK".to_vec()), b"pre  post".to_vec());
    assert_eq!(remove_first(&b"xyx".to_vec(), &b"x".to_vec()), b"yx".to_vec());
    assert_eq!(remove_first(&b"abc".to_vec(), &b"zz".to_vec()), b"abc".to_vec());
    assert_eq!(remove_first(&b"abc".to_vec(), &Vec::new()), b"abc".to_vec());
}

#[test]
fn remove_first_on_a_self_overlapping_needle() {
    // an unclosed ledger "ab" followed by the record "aba\n": the appended
    // name overlaps the tail, so the first occurrence sits at the start
    assert_eq!(remove_first(&b"ababa\n".to_vec(), &b"aba".to_vec()), b"ba\n".to_vec());
}

#[test]
fn bytes_eq_compares_contents() {
    assert!(bytes_eq(&b"abc".to_vec(), &b"abc".to_vec()));
    assert!(!bytes_eq(&b"abc".to_vec(), &b"abd".to_vec()));
    assert!(!bytes_eq(&b"abc".to_vec(), &b"ab".to_vec()));
    assert!(bytes_eq(&Vec::new(), &Vec::new()));
}
