use greetinfo::users::{get_min_max_uids, get_users, parse_passwd_line, UidRange};

fn lines(v: &[&str]) -> Vec<String> {
    v.iter().map(|s| s.to_string()).collect()
}

#[test]
fn passwd_line_with_gecos() {
    let r = parse_passwd_line("alice:x:1500:1500:Alice A.:/home/alice:/bin/sh", &UidRange::default());
    let a = r.expect("line should yield an account");
    assert_eq!(a.username, "alice");
    assert_eq!(a.display_name, Some("Alice A.".to_string()));
}

#[test]
fn passwd_line_with_empty_gecos() {
    let r = parse_passwd_line("alice:x:1500:1500::/home/alice:/bin/sh", &UidRange::default());
    let a = r.expect("line should yield an account");
    assert_eq!(a.username, "alice");
    assert_eq!(a.display_name, None);
}

#[test]
fn passwd_line_below_range() {
    let r = parse_passwd_line("daemon:x:999:999:daemon:/:/bin/false", &UidRange::default());
    assert!(r.is_none());
}

#[test]
fn passwd_line_above_range() {
    let r = parse_passwd_line("nobody:x:65534:65534:nobody:/:/bin/false", &UidRange::default());
    assert!(r.is_none());
}

#[test]
fn passwd_line_non_numeric_uid() {
    assert!(parse_passwd_line("alice:x:12a0:1500:Alice:/home/alice:/bin/sh", &UidRange::default()).is_none());
    assert!(parse_passwd_line("alice:x::1500:Alice:/home/alice:/bin/sh", &UidRange::default()).is_none());
}

#[test]
fn passwd_line_too_few_fields() {
    assert!(parse_passwd_line("alice:x:1500", &UidRange::default()).is_none());
    assert!(parse_passwd_line("", &UidRange::default()).is_none());
}

#[test]
fn users_keep_file_order_and_skip_bad_lines() {
    let input = lines(&[
        "root:x:0:0:root:/root:/bin/bash",
        "alice:x:1500:1500:Alice A.:/home/alice:/bin/sh",
        "not a passwd line",
        "bob:x:1600:1600::/home/bob:/bin/sh",
        "svc:x:70000:70000:service:/:/bin/false",
    ]);
    let users = get_users(&input, &UidRange::default());
    assert_eq!(users.len(), 2);
    assert_eq!(users[0].username, "alice");
    assert_eq!(users[0].display_name, Some("Alice A.".to_string()));
    assert_eq!(users[1].username, "bob");
    assert_eq!(users[1].display_name, None);
}

#[test]
fn users_custom_range() {
    let input = lines(&["root:x:0:0:root:/root:/bin/bash"]);
    let users = get_users(&input, &UidRange { min: 0, max: 10 });
    assert_eq!(users.len(), 1);
    assert_eq!(users[0].username, "root");
}

#[test]
fn uid_bounds_defaults() {
    let r = get_min_max_uids(&lines(&[]));
    assert_eq!(r, UidRange { min: 1000, max: 60000 });
}

#[test]
fn uid_bounds_parse_both() {
    let r = get_min_max_uids(&lines(&["UID_MIN   500", "UID_MAX\t50000", "GID_MIN 100"]));
    assert_eq!(r, UidRange { min: 500, max: 50000 });
}

#[test]
fn uid_bounds_not_regressed_by_bad_line() {
    let r = get_min_max_uids(&lines(&["UID_MIN 500", "UID_MIN x"]));
    assert_eq!(r.min, 500);
    assert_eq!(r.max, 60000);
}

#[test]
fn uid_bounds_later_line_wins() {
    let r = get_min_max_uids(&lines(&["UID_MIN 500", "UID_MIN 700"]));
    assert_eq!(r.min, 700);
}

#[test]
fn uid_bounds_value_must_follow_key() {
    let r = get_min_max_uids(&lines(&["UID_MIN", "  UID_MAX  "]));
    assert_eq!(r, UidRange { min: 1000, max: 60000 });
}
