use jira_release::text::{digit_run, lines};

#[test]
fn first_digit_run() {
    assert_eq!(digit_run("ab12c3"), "12");
    assert_eq!(digit_run("FOO-0042, x"), "0042");
    assert_eq!(digit_run("abc"), "");
}

#[test]
fn line_splitting() {
    assert_eq!(lines("a\r\nb\n\nc"), ["a", "b", "", "c"]);
    assert_eq!(lines("a\n"), ["a"]);
    assert!(lines("").is_empty());
    assert_eq!(lines("x\ry"), ["x\ry"]);
}
