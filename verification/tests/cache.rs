use greetinfo::cache::{user_session_slot, SelectionCache};

#[test]
fn fresh_cache_reports_absence() {
    let c = SelectionCache::new();
    assert_eq!(c.get_last_username(), None);
    assert_eq!(c.get_last_session(), None);
    assert_eq!(c.get_last_user_session("alice"), None);
}

#[test]
fn username_round_trip() {
    let mut c = SelectionCache::new();
    c.write_last_username("alice");
    assert_eq!(c.get_last_username(), Some("alice".to_string()));
    assert_eq!(c.get_last_session(), None);
}

#[test]
fn session_round_trip() {
    let mut c = SelectionCache::new();
    c.write_last_session("sway");
    assert_eq!(c.get_last_session(), Some("sway".to_string()));
    assert_eq!(c.get_last_username(), None);
}

#[test]
fn user_session_round_trip() {
    let mut c = SelectionCache::new();
    c.write_last_user_session("alice", "sway");
    c.write_last_user_session("bob", "gnome-session");
    assert_eq!(c.get_last_user_session("alice"), Some("sway".to_string()));
    assert_eq!(c.get_last_user_session("bob"), Some("gnome-session".to_string()));
    assert_eq!(c.get_last_user_session("carol"), None);
}

#[test]
fn user_session_overwrite_wins() {
    let mut c = SelectionCache::new();
    c.write_last_user_session("alice", "sway");
    c.write_last_user_session("alice", "gnome-session");
    assert_eq!(c.get_last_user_session("alice"), Some("gnome-session".to_string()));
}

#[test]
fn slot_name_embeds_username() {
    let slot = user_session_slot("/var/cache/greetinfo/lastsession", "alice");
    assert_eq!(slot, "/var/cache/greetinfo/lastsession-alice");
}
