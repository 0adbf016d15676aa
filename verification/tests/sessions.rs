use greetinfo::sessions::{get_sessions, load_desktop_file, sessions_dirs, DesktopError};

const SWAY: &str = "[Desktop Entry]\nName=Sway\nExec=sway\n";
const GNOME: &str = "[Desktop Entry]\nName=GNOME\nExec=gnome-session\nType=Application\n";

#[test]
fn desktop_file_parses() {
    let e = load_desktop_file(SWAY).expect("well-formed desktop file");
    assert_eq!(e.display_name, "Sway");
    assert_eq!(e.exec_command, "sway");
}

#[test]
fn desktop_file_ignores_other_sections() {
    let text = "[Other]\nName=wrong\n[Desktop Entry]\nName=GNOME\nExec=gnome-session\n";
    let e = load_desktop_file(text).expect("well-formed desktop file");
    assert_eq!(e.display_name, "GNOME");
    assert_eq!(e.exec_command, "gnome-session");
}

#[test]
fn desktop_file_missing_section() {
    let r = load_desktop_file("[Other]\nName=x\nExec=y\n");
    assert_eq!(r.unwrap_err(), DesktopError::MissingSection);
}

#[test]
fn desktop_file_missing_name() {
    let r = load_desktop_file("[Desktop Entry]\nExec=y\n");
    assert_eq!(r.unwrap_err(), DesktopError::MissingName);
}

#[test]
fn desktop_file_missing_exec() {
    let r = load_desktop_file("[Desktop Entry]\nName=x\n");
    assert_eq!(r.unwrap_err(), DesktopError::MissingExec);
}

#[test]
fn desktop_file_bad_syntax() {
    let r = load_desktop_file("[Desktop Entry\nName=x\n");
    assert_eq!(r.unwrap_err(), DesktopError::Syntax);
}

#[test]
fn override_command_comes_first() {
    let contents = vec![SWAY.to_string(), GNOME.to_string()];
    let sessions = get_sessions(&Some("foo".to_string()), &contents);
    assert_eq!(sessions.len(), 3);
    assert_eq!(sessions[0].display_name, "foo");
    assert_eq!(sessions[0].exec_command, "foo");
    assert_eq!(sessions[1].display_name, "Sway");
    assert_eq!(sessions[2].display_name, "GNOME");
}

#[test]
fn scan_keeps_order_and_drops_failures() {
    let contents = vec![
        GNOME.to_string(),
        "[Desktop Entry]\nName=broken\n".to_string(),
        SWAY.to_string(),
    ];
    let sessions = get_sessions(&None, &contents);
    assert_eq!(sessions.len(), 2);
    assert_eq!(sessions[0].display_name, "GNOME");
    assert_eq!(sessions[1].display_name, "Sway");
}

#[test]
fn no_override_no_files_is_empty() {
    let sessions = get_sessions(&None, &Vec::new());
    assert!(sessions.is_empty());
}

#[test]
fn dirs_from_override_path_list() {
    let dirs = sessions_dirs(&Some("/a/b:/c".to_string()));
    assert_eq!(dirs, vec!["/a/b".to_string(), "/c".to_string()]);
}

#[test]
fn dirs_default_pair() {
    let dirs = sessions_dirs(&None);
    assert_eq!(
        dirs,
        vec!["/usr/share/xsessions".to_string(), "/usr/share/wayland-sessions".to_string()]
    );
}
