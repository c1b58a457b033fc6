use repo_scan::summary::summary_line;
use repo_scan::summary::u64_to_dec;

#[test]
fn decimal_rendering_is_exact() {
    assert_eq!(u64_to_dec(0), "0");
    assert_eq!(u64_to_dec(7), "7");
    assert_eq!(u64_to_dec(10), "10");
    assert_eq!(u64_to_dec(12345), "12345");
    assert_eq!(u64_to_dec(u64::MAX), "18446744073709551615");
}

#[test]
fn summary_line_for_two_repos_and_one_change() {
    assert_eq!(summary_line(2, 1), "2 repos found, 1 changes");
}

#[test]
fn summary_line_for_an_empty_scan() {
    assert_eq!(summary_line(0, 0), "0 repos found, 0 changes");
}
