use greetinfo::issue::{get_issue, parse_vtnr, render_issue, IssueError, UtsInfo};

fn uts() -> UtsInfo {
    UtsInfo {
        sysname: "Linux".to_string(),
        nodename: "myhost".to_string(),
        release: "6.1".to_string(),
        version: "#1 SMP".to_string(),
        machine: "x86_64".to_string(),
    }
}

#[test]
fn banner_round_trip() {
    let out = render_issue("Welcome \\s \\r on \\l\\\\n", 2, &uts());
    assert_eq!(out, "Welcome Linux 6.1 on tty2\\n");
}

#[test]
fn banner_every_escape() {
    let out = render_issue("\\S|\\l|\\s|\\r|\\v|\\n|\\m|\\\\", 7, &uts());
    assert_eq!(out, "Linux|tty7|Linux|6.1|#1 SMP|myhost|x86_64|\\");
}

#[test]
fn banner_expansion_is_not_rescanned() {
    let out = render_issue("\\\\s", 0, &uts());
    assert_eq!(out, "\\s");
}

#[test]
fn banner_unknown_escape_and_trailing_backslash() {
    let out = render_issue("a\\x\\", 0, &uts());
    assert_eq!(out, "a\\x\\");
}

#[test]
fn banner_plain_text_unchanged() {
    let out = render_issue("no escapes here", 3, &uts());
    assert_eq!(out, "no escapes here");
}

#[test]
fn banner_large_terminal_number() {
    let out = render_issue("\\l", 12345, &uts());
    assert_eq!(out, "tty12345");
}

#[test]
fn vtnr_absent_defaults_to_zero() {
    assert_eq!(parse_vtnr(&None), Some(0));
}

#[test]
fn vtnr_parses_decimal() {
    assert_eq!(parse_vtnr(&Some("2".to_string())), Some(2));
    assert_eq!(parse_vtnr(&Some("+12".to_string())), Some(12));
}

#[test]
fn vtnr_rejects_garbage() {
    assert_eq!(parse_vtnr(&Some("x".to_string())), None);
    assert_eq!(parse_vtnr(&Some("".to_string())), None);
    assert_eq!(parse_vtnr(&Some("2 ".to_string())), None);
    assert_eq!(parse_vtnr(&Some("-2".to_string())), None);
}

#[test]
fn issue_without_template_is_no_banner() {
    let r = get_issue(&None, &Some("2".to_string()));
    assert!(matches!(r, Ok(None)));
}

#[test]
fn issue_with_bad_vtnr_is_fatal() {
    let r = get_issue(&Some("hi".to_string()), &Some("two".to_string()));
    assert_eq!(r, Err(IssueError::InvalidVtnr));
}

#[test]
fn issue_with_plain_template() {
    let r = get_issue(&Some("plain banner".to_string()), &None);
    assert_eq!(r, Ok(Some("plain banner".to_string())));
}

#[test]
fn hostname_is_stable_within_a_process() {
    let a = greetinfo::issue::get_hostname();
    let b = greetinfo::issue::get_hostname();
    assert_eq!(a, b);
}
