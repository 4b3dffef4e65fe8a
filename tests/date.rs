use try_rs::date::{format_date, today};
use try_rs::shell::{clone_dir_name, is_clone_url};
use try_rs::source::history_paths;

#[test]
fn dates_are_zero_padded() {
    assert_eq!(format_date(2024, 1, 2), "2024-01-02");
    assert_eq!(format_date(1999, 12, 31), "1999-12-31");
    assert_eq!(format_date(7, 3, 9), "0007-03-09");
    assert_eq!(format_date(0, 10, 10), "0000-10-10");
}

#[test]
fn years_outside_four_digits_carry_a_sign() {
    assert_eq!(format_date(12345, 6, 7), "+12345-06-07");
    assert_eq!(format_date(-5, 6, 7), "-0005-06-07");
    assert_eq!(format_date(-12345, 6, 7), "-12345-06-07");
}

#[test]
fn today_has_iso_shape() {
    let t = today();
    assert_eq!(t.len(), 10);
    let b = t.as_bytes();
    assert_eq!(b[4], b'-');
    assert_eq!(b[7], b'-');
    assert!(t.chars().filter(|c| *c != '-').all(|c| c.is_ascii_digit()));
}

#[test]
fn clone_urls_are_recognised() {
    assert!(is_clone_url("https://host/u/r"));
    assert!(is_clone_url("http"));
    assert!(is_clone_url("git@host:u/r"));
    assert!(!is_clone_url("htt"));
    assert!(!is_clone_url("my-http"));
    assert!(!is_clone_url(""));
}

#[test]
fn repo_names_drop_git_suffix_only_when_more_is_left() {
    assert_eq!(clone_dir_name("https://h/u/.git", None, "d").as_deref(), Some(".git-d"));
    assert_eq!(clone_dir_name("https://h/u/x.git", None, "d").as_deref(), Some("x-d"));
    assert_eq!(clone_dir_name("plain", None, "d").as_deref(), Some("plain-d"));
    assert_eq!(clone_dir_name("", None, "d"), None);
}

#[test]
fn history_lines_lose_unicode_white_space() {
    let lines = vec!["\u{3000}/w/a\u{a0}".to_string(), "\r\n".to_string(), "/w/b c".to_string()];
    assert_eq!(history_paths(&lines), vec!["/w/a".to_string(), "/w/b c".to_string()]);
}
