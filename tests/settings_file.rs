use project_provisioning::records::AppSettings;
use project_provisioning::settings::{parse_settings, render_settings};

fn empty() -> AppSettings {
    AppSettings {
        surrealdb_url: None,
        surrealdb_ns: None,
        surrealdb_db: None,
        surrealdb_user: None,
        surrealdb_pass: None,
        staff_name: None,
        staff_email: None,
        staff_phone: None,
        staff_position: None,
        project_folder_path: None,
    }
}

#[test]
fn reads_assignments() {
    let content = "# comment\r\n  SURREALDB_URL = \"ws://10.0.1.17:8000\"  \r\nOTHER=1\nSTAFF_NAME=Jane Doe\n\nPROJECT_FOLDER_PATH=\"E:\\\\Projects\"\nSTAFF_NAME=\"John\"\nno equals here\n#STAFF_EMAIL=x";
    let s = parse_settings(content);
    assert_eq!(s.surrealdb_url.as_deref(), Some("ws://10.0.1.17:8000"));
    assert_eq!(s.staff_name.as_deref(), Some("John"));
    assert_eq!(s.project_folder_path.as_deref(), Some("E:\\\\Projects"));
    assert_eq!(s.staff_email, None);
    assert_eq!(s.surrealdb_ns, None);
}

#[test]
fn reads_nothing_from_empty() {
    let s = parse_settings("");
    assert!(s.surrealdb_url.is_none() && s.project_folder_path.is_none());
}

#[test]
fn writes_sections_and_keeps_other_lines() {
    let existing = "# mine\nFOO=bar\nSURREALDB_URL=\"old\"\n  KEEP = 1  \nSTAFF_NAME=Old";
    let mut s = empty();
    s.surrealdb_url = Some("ws://new".to_string());
    s.staff_name = Some("Jane".to_string());
    s.project_folder_path = Some("/projects".to_string());
    let text = render_settings(existing, &s);
    assert_eq!(
        text,
        "# mine\nFOO=bar\nKEEP = 1\n\n# SurrealDB Configuration\nSURREALDB_URL=\"ws://new\"\n\n# Staff Information\nSTAFF_NAME=\"Jane\"\n\n# Project Configuration\nPROJECT_FOLDER_PATH=\"/projects\""
    );
}

#[test]
fn saved_settings_read_back() {
    let mut s = empty();
    s.surrealdb_url = Some("ws://h:8000".to_string());
    s.surrealdb_pass = Some("SECRET-REDACTED".to_string());
    s.staff_phone = Some("+971 50 123 4567".to_string());
    s.project_folder_path = Some("/data/projects".to_string());
    let text = render_settings("X=1", &s);
    let back = parse_settings(&text);
    assert_eq!(back.surrealdb_url, s.surrealdb_url);
    assert_eq!(back.surrealdb_pass, s.surrealdb_pass);
    assert_eq!(back.staff_phone, s.staff_phone);
    assert_eq!(back.project_folder_path, s.project_folder_path);
    assert_eq!(back.staff_name, None);
}


#[test]
fn trims_unicode_blanks() {
    let s = parse_settings("\u{3000}STAFF_NAME\u{a0}=\u{2009}\"Jane\"\u{85}\n");
    assert_eq!(s.staff_name.as_deref(), Some("Jane"));
}
